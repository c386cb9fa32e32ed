//! The updates that the window has received from the daemon but not yet
//! shown: the latest player state, and the playlist edits in arrival order.

use crate::change::PlaylistChangeMessage;
use std::collections::VecDeque;
use vstd::prelude::*;

verus! {

/// The queue of playlist edits after one more edit arrives: a snapshot makes
/// every edit queued before it stale, so it replaces them.
pub open spec fn queued_after(queue: Seq<PlaylistChangeMessage>, update: PlaylistChangeMessage) -> Seq<
    PlaylistChangeMessage,
> {
    if update.change.is_rebuild() {
        seq![update]
    } else {
        queue.push(update)
    }
}

/// A snapshot may only stand at the front of the queue.
pub open spec fn snapshot_only_first(queue: Seq<PlaylistChangeMessage>) -> bool {
    forall|i: int| 1 <= i < queue.len() ==> !(#[trigger] queue[i]).change.is_rebuild()
}

/// Updates waiting for the window: the latest player state `S` replaces the
/// earlier one, playlist edits queue up in order.
pub struct PendingUpdates<S> {
    pub player_state: Option<S>,
    pub playlist_change_messages: VecDeque<PlaylistChangeMessage>,
}

/// What the window's update stream yields next.
pub enum NextUpdate<S> {
    /// The oldest queued playlist edit.
    Playlist(PlaylistChangeMessage),
    /// The latest player state.
    Player(S),
    /// Nothing is pending and the connection is closed.
    Closed,
    /// Nothing is pending yet.
    Wait,
}

impl<S> PendingUpdates<S> {
    /// Nothing pending.
    pub fn new() -> (r: Self)
        ensures
            r.player_state is None,
            r.playlist_change_messages@ == Seq::<PlaylistChangeMessage>::empty(),
    {
        PendingUpdates { player_state: None, playlist_change_messages: VecDeque::new() }
    }

    /// Adds one batch of updates: a player state replaces the pending one, a
    /// playlist edit joins the queue, and a snapshot replaces the queue.
    pub fn push(
        &mut self,
        player_state: Option<S>,
        playlist_update: Option<PlaylistChangeMessage>,
    )
        ensures
            final(self).player_state == match player_state {
                Some(s) => Some(s),
                None => old(self).player_state,
            },
            final(self).playlist_change_messages@ == match playlist_update {
                Some(m) => queued_after(old(self).playlist_change_messages@, m),
                None => old(self).playlist_change_messages@,
            },
            snapshot_only_first(old(self).playlist_change_messages@) ==> snapshot_only_first(
                final(self).playlist_change_messages@,
            ),
    {
        if let Some(state) = player_state {
            self.player_state = Some(state);
        }
        if let Some(msg) = playlist_update {
            if matches!(msg.change, crate::change::PlaylistChangeKind::Rebuild(_, _)) {
                self.playlist_change_messages.clear();
            }
            self.playlist_change_messages.push_back(msg);
            proof {
                let q = self.playlist_change_messages@;
                if msg.change.is_rebuild() {
                    assert(q =~= seq![msg]);
                } else {
                    assert(q =~= old(self).playlist_change_messages@.push(msg));
                    if snapshot_only_first(old(self).playlist_change_messages@) {
                        assert forall|i: int| 1 <= i < q.len() implies !(
                        #[trigger] q[i]).change.is_rebuild() by {
                            if i < q.len() - 1 {
                                assert(q[i] == old(self).playlist_change_messages@[i]);
                            }
                        }
                    }
                }
            }
        }
    }

    /// Whether nothing is pending.
    pub fn is_empty(&self) -> (r: bool)
        ensures
            r == (self.player_state is None && self.playlist_change_messages@.len() == 0),
    {
        self.player_state.is_none() && self.playlist_change_messages.len() == 0
    }

    /// Takes everything that is pending, leaving nothing behind.
    pub fn take_all(&mut self) -> (r: (Option<S>, VecDeque<PlaylistChangeMessage>))
        ensures
            r.0 == old(self).player_state,
            r.1@ == old(self).playlist_change_messages@,
            final(self).player_state is None,
            final(self).playlist_change_messages@ == Seq::<PlaylistChangeMessage>::empty(),
    {
        let state = self.player_state.take();
        let mut queue: VecDeque<PlaylistChangeMessage> = VecDeque::new();
        std::mem::swap(&mut queue, &mut self.playlist_change_messages);
        (state, queue)
    }

    /// Takes the next update to show: queued playlist edits first, in order,
    /// then the latest player state.
    pub fn take_next(&mut self, closed: bool) -> (r: NextUpdate<S>)
        ensures
            old(self).playlist_change_messages@.len() > 0 ==> {
                &&& r == NextUpdate::<S>::Playlist(old(self).playlist_change_messages@[0])
                &&& final(self).playlist_change_messages@ == old(self).playlist_change_messages@.drop_first()
                &&& final(self).player_state == old(self).player_state
            },
            old(self).playlist_change_messages@.len() == 0 ==> final(self).playlist_change_messages@ == old(self).playlist_change_messages@,
            old(self).playlist_change_messages@.len() == 0 && old(self).player_state is Some ==> {
                &&& r == NextUpdate::<S>::Player(old(self).player_state->0)
                &&& final(self).player_state is None
            },
            old(self).playlist_change_messages@.len() == 0 && old(self).player_state is None ==> {
                &&& r == if closed {
                    NextUpdate::<S>::Closed
                } else {
                    NextUpdate::<S>::Wait
                }
                &&& final(self).player_state is None
            },
            snapshot_only_first(old(self).playlist_change_messages@) ==> snapshot_only_first(
                final(self).playlist_change_messages@,
            ),
    {
        if let Some(update) = self.playlist_change_messages.pop_front() {
            assert(self.playlist_change_messages@ =~= old(self).playlist_change_messages@.drop_first());
            assert(snapshot_only_first(old(self).playlist_change_messages@) ==> snapshot_only_first(
                self.playlist_change_messages@,
            )) by {
                if snapshot_only_first(old(self).playlist_change_messages@) {
                    let q = self.playlist_change_messages@;
                    assert forall|i: int| 1 <= i < q.len() implies !(#[trigger] q[i]).change.is_rebuild() by {
                        assert(q[i] == old(self).playlist_change_messages@[i + 1]);
                    }
                }
            }
            return NextUpdate::Playlist(update);
        }
        if let Some(state) = self.player_state.take() {
            return NextUpdate::Player(state);
        }
        if closed {
            NextUpdate::Closed
        } else {
            NextUpdate::Wait
        }
    }
}

impl<S> Default for PendingUpdates<S> {
    fn default() -> (r: Self)
        ensures
            r.player_state is None,
            r.playlist_change_messages@ == Seq::<PlaylistChangeMessage>::empty(),
    {
        PendingUpdates::new()
    }
}

} // verus!
