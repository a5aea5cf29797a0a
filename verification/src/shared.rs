//! The tree as threads share it: readers take a snapshot and go on
//! without the lock, and updates are applied one at a time.

use vstd::prelude::*;
use std::sync::Arc;
use parking_lot::lock_api::{RwLock, RwLockWriteGuard};
use parking_lot::RawRwLock;
use crate::changes::{diff, is_change_set, view_of, ChangeSet};
use crate::engine::{is_next_state, next_state, update_error, UpdateError};
use crate::notify::{
    after_all, deliverable, lemma_changes_deliverable, notifications, notify, ChangeHandler,
};
use crate::schema::TreeUpdate;
use crate::tree::{TreeState, TreeView};

verus! {

/// `parking_lot::RawRwLock`, the lock behind `parking_lot::RwLock`.
#[verifier::external_type_specification]
#[verifier::external_body]
pub struct ExRawRwLock(RawRwLock);

/// `lock_api::RwLock`, a lock that many readers or one writer can hold.
#[verifier::external_type_specification]
#[verifier::external_body]
#[verifier::reject_recursive_types(R)]
#[verifier::reject_recursive_types(T)]
pub struct ExRwLock<R, T: ?Sized>(RwLock<R, T>);

/// The exclusive section of the lock of a tree: a
/// `lock_api::RwLockWriteGuard`. While a thread has one, no other thread
/// reads or writes the tree, and the lock is given up when the section is
/// dropped.
#[verifier::external_body]
pub struct WriteSection<'a> {
    guard: RwLockWriteGuard<'a, RawRwLock, Option<Arc<TreeState>>>,
}

/// The tree that the holder of an exclusive section finds or has put
/// behind the lock.
pub uninterp spec fn held(section: WriteSection<'_>) -> Option<TreeView>;

/// The tree that a lock was made with: what stood behind it before any
/// thread took it. What stands behind it later is for the threads that
/// take it to say, and has no name here.
pub uninterp spec fn made_with(lock: RwLock<RawRwLock, Option<Arc<TreeState>>>) -> Option<
    TreeView,
>;

/// `RwLock::new`: a lock that nobody holds, made with `value` behind it.
#[verifier::external_body]
fn new_lock(value: Option<Arc<TreeState>>) -> (lock: RwLock<RawRwLock, Option<Arc<TreeState>>>)
    ensures
        made_with(lock) == view_of_handle(value),
{
    RwLock::new(value)
}

/// `RwLock::read`, for as long as it takes to copy the handle of the tree
/// behind the lock. Which tree that is depends on the other threads.
#[verifier::external_body]
fn read_snapshot(lock: &RwLock<RawRwLock, Option<Arc<TreeState>>>) -> (snapshot: Option<
    Arc<TreeState>,
>) {
    lock.read().clone()
}

/// `RwLock::write`: waits until no other thread holds the lock and takes
/// it exclusively.
#[verifier::external_body]
fn lock_write<'a>(lock: &'a RwLock<RawRwLock, Option<Arc<TreeState>>>) -> (section: WriteSection<
    'a,
>) {
    WriteSection { guard: lock.write() }
}

/// Reads through a `RwLockWriteGuard`: the handle of the tree behind the
/// lock.
#[verifier::external_body]
fn section_get(section: &WriteSection<'_>) -> (current: Option<Arc<TreeState>>)
    ensures
        view_of_handle(current) == held(*section),
{
    (*section.guard).clone()
}

/// Writes through a `RwLockWriteGuard`: puts `next` behind the lock.
#[verifier::external_body]
fn section_set(section: &mut WriteSection<'_>, next: Arc<TreeState>)
    ensures
        held(*final(section)) == Some(next@),
{
    *section.guard = Some(next);
}

/// The tree behind a handle as a mathematical value, if there is one.
pub open spec fn view_of_handle(handle: Option<Arc<TreeState>>) -> Option<TreeView> {
    match handle {
        Some(tree) => Some(tree@),
        None => None,
    }
}

/// What a shared update did, applied to the tree `current` that it found:
/// whether the result is right, and what the handler was told.
pub open spec fn applied<H: ChangeHandler>(
    current: Option<TreeView>,
    update: TreeUpdate,
    r: Result<(), UpdateError>,
    before: H::Model,
    after: H::Model,
) -> bool {
    match r {
        Ok(()) => {
            &&& update_error(current, update).is_none()
            &&& exists|next: TreeView, changes: ChangeSet|
                {
                    &&& is_next_state(current, update, next)
                    &&& #[trigger] is_change_set(current, next, changes)
                    &&& after == after_all::<H>(
                        before,
                        next,
                        notifications(changes),
                        notifications(changes).len(),
                    )
                }
        },
        Err(e) => update_error(current, update) == Some(e) && after == before,
    }
}

/// A tree that threads share. It has no committed tree until the first
/// update is accepted.
pub struct SharedTree {
    state: RwLock<RawRwLock, Option<Arc<TreeState>>>,
}

impl SharedTree {
    /// The tree that was committed when the shared tree was made, before
    /// any update was applied to it.
    pub closed spec fn first_state(&self) -> Option<TreeView> {
        made_with(self.state)
    }

    /// A shared tree that has not seen an update yet: it is made without a
    /// committed tree.
    pub fn new() -> (r: SharedTree)
        ensures
            r.first_state().is_none(),
    {
        SharedTree { state: new_lock(None) }
    }

    /// A handle to the tree that is committed at the moment, if there is
    /// one. The lock is held only while the handle is copied: the caller
    /// reads the snapshot without it, and the snapshot stays as it is
    /// whatever is applied later. Which tree is committed at the moment
    /// depends on the other threads; whichever it is, it is a tree.
    pub fn read(&self) -> (r: Option<Arc<TreeState>>)
        ensures
            r matches Some(tree) ==> tree.wf(),
    {
        let snapshot = read_snapshot(&self.state);
        proof {
            if let Some(tree) = &snapshot {
                use_type_invariant(&**tree);
            }
        }
        snapshot
    }

    /// Applies `update` in the exclusive section of the lock: to the tree
    /// that is committed when the section is entered, whichever that is.
    /// Where the update is accepted the new tree is committed and
    /// `handler` is told what changed before the section is left, so that
    /// no reader sees the new tree first. Where it is rejected nothing
    /// changes and the handler is told nothing. The handler must not apply
    /// an update to this tree: it would wait for itself.
    pub fn apply<H: ChangeHandler>(&self, update: &TreeUpdate, handler: &mut H) -> (r: Result<
        (),
        UpdateError,
    >)
        ensures
            exists|current: Option<TreeView>|
                #![trigger update_error(current, *update)]
                (current matches Some(tree) ==> tree.wf()) && applied::<H>(
                    current,
                    *update,
                    r,
                    old(handler).model(),
                    final(handler).model(),
                ),
    {
        let mut section = lock_write(&self.state);
        let current = section_get(&section);
        let committed: Option<&TreeState> = match &current {
            Some(tree) => Some(&**tree),
            None => None,
        };
        proof {
            if let Some(tree) = committed {
                use_type_invariant(tree);
            }
        }
        match next_state(committed, update) {
            Err(e) => {
                assert(applied::<H>(
                    view_of(committed),
                    *update,
                    Err(e),
                    old(handler).model(),
                    handler.model(),
                ));
                Err(e)
            },
            Ok(next) => {
                let changes = diff(committed, &next);
                let next = Arc::new(next);
                section_set(&mut section, next.clone());
                proof {
                    assert forall|i: int| 0 <= i < notifications(changes).len() implies deliverable(
                        next@,
                        #[trigger] notifications(changes)[i],
                    ) by {
                        lemma_changes_deliverable(view_of(committed), next@, changes, i);
                    }
                }
                notify(&changes, &next, handler);
                assert(applied::<H>(
                    view_of(committed),
                    *update,
                    Ok(()),
                    old(handler).model(),
                    handler.model(),
                ));
                Ok(())
            },
        }
    }
}

} // verus!
