//! The viewer task's decisions: which frames an entitled viewer gets.
//!
//! Each viewer session owns an entitlement snapshot, the set of camera
//! ids it may currently see.  The snapshot is built from the store when
//! the session starts and rebuilt on every camera-list delta.  A frame
//! is relayed to the peer exactly when its camera is in the snapshot
//! (and it is not the value present at subscription time, which is
//! skipped so the rail's sentinel is never relayed).

use vstd::prelude::*;

use crate::store::Store;
use crate::store::spec_visible;
use crate::types::ImageContainer;

verus! {

/// The set of camera ids one viewer session may see right now.
/// Exclusively owned by its session.
pub struct EntitlementSnapshot {
    ids: Vec<i64>,
}

impl EntitlementSnapshot {
    /// The camera ids in the snapshot.
    pub closed spec fn ids(&self) -> Seq<i64> {
        self.ids@
    }

    /// The viewer may see this camera.
    pub open spec fn entitled(&self, camera_id: i64) -> bool {
        self.ids().contains(camera_id)
    }

    /// Decides `entitled`.
    pub fn contains(&self, camera_id: i64) -> (r: bool)
        ensures
            r == self.entitled(camera_id),
    {
        let n = self.ids.len();
        let mut i: usize = 0;
        while i < n
            invariant
                0 <= i <= n == self.ids().len(),
                forall|j: int| 0 <= j < i ==> #[trigger] self.ids()[j] != camera_id,
            decreases n - i,
        {
            if self.ids[i] == camera_id {
                return true;
            }
            i = i + 1;
        }
        false
    }

    /// Builds the snapshot for a user from the store: exactly the
    /// active cameras whose permission row for the user grants viewing.
    /// Used both at session start and on every camera-list delta.
    pub fn from_store(store: &Store, user_id: i64) -> (s: Self)
        requires
            store.wf(),
        ensures
            forall|c: i64|
                #[trigger] s.entitled(c) <==> spec_visible(
                    store.cameras(),
                    store.camera_permissions(),
                    user_id,
                    c,
                ),
    {
        let mut ids: Vec<i64> = Vec::new();
        let n = store.permission_count();
        let mut i: usize = 0;
        while i < n
            invariant
                store.wf(),
                0 <= i <= n == store.camera_permissions().len(),
                forall|c: i64|
                    #[trigger] ids@.contains(c) <==> exists|j: int|
                        0 <= j < i && #[trigger] store.camera_permissions()[j].camera_id == c
                            && store.camera_permissions()[j].user_id == user_id
                            && store.camera_permissions()[j].can_view
                            && crate::store::has_active_camera(store.cameras(), c),
            decreases n - i,
        {
            let p = store.permission_at(i);
            if p.user_id == user_id && p.can_view && store.camera_is_active(p.camera_id) {
                let ghost before = ids@;
                ids.push(p.camera_id);
                proof {
                    assert(forall|k: int| 0 <= k < before.len() ==> ids@[k] == #[trigger] before[k]);
                    assert(ids@.last() == p.camera_id);
                    assert(forall|c: i64|
                        #[trigger] ids@.contains(c) <==> (before.contains(c) || c == p.camera_id))
                        by {
                        assert(forall|c: i64| #[trigger] before.contains(c) ==> ids@.contains(c));
                        assert(ids@.contains(p.camera_id));
                        assert(forall|c: i64| #[trigger] ids@.contains(c) && c != p.camera_id
                            ==> before.contains(c)) by {
                            assert forall|c: i64|
                                #[trigger] ids@.contains(c) && c != p.camera_id
                                implies before.contains(c) by {
                                let w = choose|k: int| 0 <= k < ids@.len() && ids@[k] == c;
                                assert(w < before.len());
                                assert(before[w] == c);
                            };
                        };
                    };
                }
            }
            i = i + 1;
        }
        EntitlementSnapshot { ids }
    }
}

/// Frame isolation: a viewer session relays a frame to its peer exactly
/// when the frame's camera is in its entitlement snapshot and the frame
/// is not the one present at subscription time (`first`), so the
/// sentinel and pre-subscription values are never relayed.
pub fn viewer_step(frame: &ImageContainer, entitlements: &EntitlementSnapshot, first: bool) -> (relay: bool)
    ensures
        relay <==> (!first && entitlements.entitled(frame.camera_id)),
{
    if first {
        false
    } else {
        entitlements.contains(frame.camera_id)
    }
}

/// Removal teardown, viewer side: a snapshot rebuilt from a store that
/// no longer holds camera `c` does not entitle the viewer to `c`.
/// Rebuilding happens on every camera-list delta, so a removal is
/// followed by one.
pub proof fn lemma_removed_camera_not_entitled(
    s: EntitlementSnapshot,
    store: Store,
    user_id: i64,
    c: i64,
)
    requires
        !crate::store::has_camera(store.cameras(), c),
        forall|x: i64|
            #[trigger] s.entitled(x) <==> spec_visible(
                store.cameras(),
                store.camera_permissions(),
                user_id,
                x,
            ),
    ensures
        !s.entitled(c),
{
}

/// Frame isolation over a whole session: whatever frames arrive, the
/// step relays none whose camera is outside the entitlement set.
pub proof fn lemma_frame_isolation(frame: ImageContainer, s: EntitlementSnapshot)
    ensures
        !s.entitled(frame.camera_id) ==> !(exists|first: bool| relays(frame, s, first)),
        forall|first: bool| #[trigger] relays(frame, s, first) ==> s.entitled(frame.camera_id),
{
}

/// What `viewer_step` decides, as a predicate.
pub open spec fn relays(frame: ImageContainer, s: EntitlementSnapshot, first: bool) -> bool {
    !first && s.entitled(frame.camera_id)
}

} // verus!
