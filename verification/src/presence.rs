//! The presence tracker: for each video, the viewers that sent a heartbeat and
//! when each sent its last one. A viewer counts as live until its last heartbeat
//! is more than thirty seconds old.

use crate::string_map::StringMap;
use crate::text::concat3;
use vstd::prelude::*;
use vstd::string::*;

verus! {

/// How long a viewer counts as live after its last heartbeat, in milliseconds.
pub const PRESENCE_WINDOW_MS: u64 = 30_000;

/// The viewers of one video: for each viewer key, the time of its last heartbeat.
pub type Viewers = Map<Seq<char>, u64>;

/// The viewers of all videos, by video id.
pub type PresenceView = Map<Seq<char>, Viewers>;

/// The key of a viewer: its address and its user agent, joined by a hyphen.
pub open spec fn viewer_key(ip: Seq<char>, user_agent: Seq<char>) -> Seq<char> {
    ip + "-"@ + user_agent
}

/// Whether a viewer whose last heartbeat came at `last_seen` is live at `now`:
/// no more than the window has passed since. A heartbeat that is exactly as old
/// as the window still counts.
pub open spec fn is_live(last_seen: u64, now: u64) -> bool {
    now < last_seen || now - last_seen <= PRESENCE_WINDOW_MS
}

/// The viewers that are live at `now`.
pub open spec fn live_viewers(viewers: Viewers, now: u64) -> Viewers {
    Map::new(
        |k: Seq<char>| viewers.dom().contains(k) && is_live(viewers[k], now),
        |k: Seq<char>| viewers[k],
    )
}

/// The tracker after a heartbeat of `viewer` for `video_id` at `now`.
pub open spec fn with_heartbeat(
    presence: PresenceView,
    video_id: Seq<char>,
    viewer: Seq<char>,
    now: u64,
) -> PresenceView {
    let viewers = if presence.dom().contains(video_id) {
        presence[video_id]
    } else {
        Map::empty()
    };
    presence.insert(video_id, viewers.insert(viewer, now))
}

/// The tracker after the viewers that are not live at `now` were dropped, and
/// with them the videos that are left without viewers.
pub open spec fn evicted(presence: PresenceView, now: u64) -> PresenceView {
    Map::new(
        |v: Seq<char>| presence.dom().contains(v) && live_viewers(presence[v], now).dom().len() > 0,
        |v: Seq<char>| live_viewers(presence[v], now),
    )
}

/// A video whose every heartbeat is more than thirty seconds old has no live
/// viewer and is not reported.
pub proof fn lemma_stale_video_not_reported(presence: PresenceView, video_id: Seq<char>, now: u64)
    requires
        presence.dom().contains(video_id) ==> forall|k: Seq<char>| #[trigger]
            presence[video_id].dom().contains(k) ==> now >= presence[video_id][k] && now
                - presence[video_id][k] > PRESENCE_WINDOW_MS,
    ensures
        !evicted(presence, now).dom().contains(video_id),
{
    if presence.dom().contains(video_id) {
        let live = live_viewers(presence[video_id], now);
        assert(live.dom() =~= Set::<Seq<char>>::empty());
    }
}

/// A viewer is live right after its heartbeat, and its video is reported.
pub proof fn lemma_heartbeat_is_live(
    presence: PresenceView,
    video_id: Seq<char>,
    viewer: Seq<char>,
    now: u64,
)
    requires
        presence.dom().contains(video_id) ==> presence[video_id].dom().finite(),
    ensures
        evicted(with_heartbeat(presence, video_id, viewer, now), now).dom().contains(video_id),
        evicted(with_heartbeat(presence, video_id, viewer, now), now)[video_id].dom().contains(
            viewer,
        ),
{
    let after = with_heartbeat(presence, video_id, viewer, now);
    let live = live_viewers(after[video_id], now);
    assert(after[video_id].dom().finite());
    assert(live.dom().subset_of(after[video_id].dom()));
    vstd::set_lib::lemma_len_subset(live.dom(), after[video_id].dom());
    assert(live.dom().contains(viewer));
    assert(live.dom().finite());
    assert(live.dom().len() > 0) by {
        if live.dom().len() == 0 {
            assert(live.dom() =~= Set::<Seq<char>>::empty());
        }
    }
}

/// The presence tracker.
pub struct Presence {
    videos: StringMap<StringMap<u64>>,
}

impl View for Presence {
    type V = PresenceView;

    closed spec fn view(&self) -> PresenceView {
        views(self.videos@)
    }
}

spec fn views(videos: Map<Seq<char>, StringMap<u64>>) -> PresenceView {
    videos.map_values(|m: StringMap<u64>| m@)
}

fn live_subset(viewers: &StringMap<u64>, now: u64) -> (live: StringMap<u64>)
    requires
        viewers.wf(),
    ensures
        live.wf(),
        live@ == live_viewers(viewers@, now),
{
    let mut live: StringMap<u64> = StringMap::new();
    let n = viewers.len();
    let mut i: usize = 0;
    proof {
        viewers.lemma_entries();
        assert(live@ =~= Map::new(
            |k: Seq<char>| viewers.key_seq().take(0).contains(k) && is_live(viewers@[k], now),
            |k: Seq<char>| viewers@[k],
        ));
    }
    while i < n
        invariant
            i <= n,
            n == viewers.key_seq().len(),
            viewers.wf(),
            live.wf(),
            live@ == Map::new(
                |k: Seq<char>|
                    viewers.key_seq().take(i as int).contains(k) && is_live(viewers@[k], now),
                |k: Seq<char>| viewers@[k],
            ),
        decreases n - i,
    {
        let key = viewers.key_at(i);
        let last_seen = *viewers.value_at(i);
        let ghost before = live@;
        proof {
            viewers.lemma_entries();
            assert(viewers@[key@] == last_seen);
        }
        if now < last_seen || now - last_seen <= PRESENCE_WINDOW_MS {
            live.insert(key.as_str(), last_seen);
        }
        proof {
            let ks = viewers.key_seq();
            let next = ks.take(i as int + 1);
            assert forall|k: Seq<char>| next.contains(k) <==> (ks.take(i as int).contains(k) || k
                == key@) by {
                if next.contains(k) {
                    let j = choose|j: int| 0 <= j < next.len() && next[j] == k;
                    if j < i {
                        assert(ks.take(i as int)[j] == k);
                    }
                }
                if ks.take(i as int).contains(k) {
                    let j = choose|j: int| 0 <= j < i && ks.take(i as int)[j] == k;
                    assert(next[j] == k);
                }
                if k == key@ {
                    assert(next[i as int] == k);
                }
            }
            assert(live@ =~= Map::new(
                |k: Seq<char>| next.contains(k) && is_live(viewers@[k], now),
                |k: Seq<char>| viewers@[k],
            ));
        }
        i += 1;
    }
    proof {
        viewers.lemma_entries();
        let ks = viewers.key_seq();
        assert(ks.take(i as int) =~= ks);
        assert forall|k: Seq<char>| ks.contains(k) <==> viewers@.dom().contains(k) by {
            assert(ks.to_set().contains(k) <==> ks.contains(k));
        }
        assert(live@ =~= live_viewers(viewers@, now));
    }
    live
}

impl Presence {
    /// What every function of the tracker asks for and keeps.
    pub closed spec fn wf(&self) -> bool {
        &&& self.videos.wf()
        &&& forall|v: Seq<char>| #[trigger]
            self.videos@.dom().contains(v) ==> self.videos@[v].wf()
    }

    /// A tracker without viewers.
    pub fn new() -> (p: Presence)
        ensures
            p.wf(),
            p@ == PresenceView::empty(),
    {
        let p = Presence { videos: StringMap::new() };
        assert(p@ =~= PresenceView::empty());
        p
    }

    /// Every video has finitely many viewers.
    pub proof fn lemma_finite(&self, video_id: Seq<char>)
        requires
            self.wf(),
            self@.dom().contains(video_id),
        ensures
            self@[video_id].dom().finite(),
    {
        assert(self.videos@.dom().contains(video_id));
        self.videos@[video_id].lemma_entries();
    }

    /// Records a heartbeat of the viewer (`ip`, `user_agent`) for `video_id` at the
    /// time `now`, in milliseconds.
    pub fn heartbeat_at(&mut self, video_id: &str, ip: &str, user_agent: &str, now: u64)
        requires
            old(self).wf(),
        ensures
            final(self).wf(),
            final(self)@ == with_heartbeat(
                old(self)@,
                video_id@,
                viewer_key(ip@, user_agent@),
                now,
            ),
    {
        let viewer = concat3(ip, "-", user_agent);
        let ghost before = self.videos@;
        let mut viewers = match self.videos.remove(video_id) {
            Some(m) => {
                assert(before.dom().contains(video_id@));
                m
            },
            None => StringMap::new(),
        };
        viewers.insert(viewer.as_str(), now);
        let ghost added = viewers;
        self.videos.insert(video_id, viewers);
        proof {
            assert(self.videos@ == before.insert(video_id@, added));
            assert forall|v: Seq<char>| #[trigger]
                self.videos@.dom().contains(v) implies self.videos@[v].wf() by {
                if v != video_id@ {
                    assert(before.dom().contains(v));
                }
            }
            assert(self@ =~= with_heartbeat(
                old(self)@,
                video_id@,
                viewer_key(ip@, user_agent@),
                now,
            ));
        }
    }

    /// The number of viewers of `video_id` that are live at `now`.
    pub fn live_count(&self, video_id: &str, now: u64) -> (n: usize)
        requires
            self.wf(),
        ensures
            n == if self@.dom().contains(video_id@) {
                live_viewers(self@[video_id@], now).dom().len()
            } else {
                0
            },
    {
        match self.videos.get(video_id) {
            Some(viewers) => {
                assert(self.videos@.dom().contains(video_id@));
                live_subset(viewers, now).len()
            },
            None => 0,
        }
    }

    /// Drops the viewers that are not live at `now`, and the videos left without
    /// viewers, and reports each remaining video with the number of its viewers.
    ///
    /// No video is reported twice, and every video that is left is reported.
    pub fn snapshot_and_evict(&mut self, now: u64) -> (counts: Vec<(String, usize)>)
        requires
            old(self).wf(),
        ensures
            final(self).wf(),
            final(self)@ == evicted(old(self)@, now),
            forall|i: int|
                0 <= i < counts@.len() ==> final(self)@.dom().contains((#[trigger] counts@[i]).0@)
                    && counts@[i].1 == final(self)@[counts@[i].0@].dom().len() && counts@[i].1
                    > 0,
            forall|i: int, j: int|
                0 <= i < counts@.len() && 0 <= j < counts@.len() && i != j ==> (
                #[trigger] counts@[i]).0@ != (#[trigger] counts@[j]).0@,
            forall|v: Seq<char>|
                final(self)@.dom().contains(v) ==> exists|i: int|
                    0 <= i < counts@.len() && (#[trigger] counts@[i]).0@ == v,
    {
        let mut kept: StringMap<StringMap<u64>> = StringMap::new();
        let mut counts: Vec<(String, usize)> = Vec::new();
        let n = self.videos.len();
        let ghost before = self@;
        let mut i: usize = 0;
        proof {
            self.videos.lemma_entries();
            kept.lemma_entries();
            assert(views(kept@) =~= Map::new(
                |v: Seq<char>|
                    self.videos.key_seq().take(0).contains(v) && live_viewers(
                        before[v],
                        now,
                    ).dom().len() > 0,
                |v: Seq<char>| live_viewers(before[v], now),
            ));
        }
        while i < n
            invariant
                i <= n,
                n == self.videos.key_seq().len(),
                self.wf(),
                before == self@,
                kept.wf(),
                forall|v: Seq<char>| #[trigger] kept@.dom().contains(v) ==> kept@[v].wf(),
                views(kept@) == Map::new(
                    |v: Seq<char>|
                        self.videos.key_seq().take(i as int).contains(v) && live_viewers(
                            before[v],
                            now,
                        ).dom().len() > 0,
                    |v: Seq<char>| live_viewers(before[v], now),
                ),
                counts@.len() == kept.key_seq().len(),
                forall|k: int|
                    0 <= k < counts@.len() ==> (#[trigger] counts@[k]).0@ == kept.key_seq()[k]
                        && counts@[k].1 == kept.value_seq()[k]@.dom().len() && counts@[k].1 > 0,
            decreases n - i,
        {
            let key = self.videos.key_at(i);
            let viewers = self.videos.value_at(i);
            let ghost ks = self.videos.key_seq();
            let ghost kept_before = kept;
            proof {
                self.videos.lemma_entries();
                assert(self.videos@.dom().contains(key@));
                assert(self.videos@[key@] == *viewers);
                assert(before[key@] == viewers@);
                kept.lemma_entries();
                assert(!kept@.dom().contains(key@)) by {
                    if kept@.dom().contains(key@) {
                        assert(views(kept@).dom().contains(key@));
                        assert(ks.take(i as int).contains(key@));
                        let j = choose|j: int| 0 <= j < i && ks.take(i as int)[j] == key@;
                        assert(ks[j] == ks[i as int]);
                    }
                }
            }
            let live = live_subset(viewers, now);
            let count = live.len();
            if count > 0 {
                let ghost live_copy = live;
                kept.insert(key.as_str(), live);
                counts.push((key.clone(), count));
                proof {
                    assert(kept.key_seq() == kept_before.key_seq().push(key@));
                    assert(kept.value_seq() == kept_before.value_seq().push(live_copy));
                    assert forall|k: int| 0 <= k < counts@.len() implies (
                    #[trigger] counts@[k]).0@ == kept.key_seq()[k] && counts@[k].1
                        == kept.value_seq()[k]@.dom().len() && counts@[k].1 > 0 by {
                        if k < counts@.len() - 1 {
                            assert(kept.key_seq()[k] == kept_before.key_seq()[k]);
                            assert(kept.value_seq()[k] == kept_before.value_seq()[k]);
                        }
                    }
                    assert forall|v: Seq<char>| #[trigger]
                        kept@.dom().contains(v) implies kept@[v].wf() by {
                        if v != key@ {
                            assert(kept_before@.dom().contains(v));
                        }
                    }
                }
            }
            proof {
                let next = ks.take(i as int + 1);
                assert forall|v: Seq<char>| next.contains(v) <==> (ks.take(i as int).contains(v)
                    || v == key@) by {
                    if next.contains(v) {
                        let j = choose|j: int| 0 <= j < next.len() && next[j] == v;
                        if j < i {
                            assert(ks.take(i as int)[j] == v);
                        }
                    }
                    if ks.take(i as int).contains(v) {
                        let j = choose|j: int| 0 <= j < i && ks.take(i as int)[j] == v;
                        assert(next[j] == v);
                    }
                    if v == key@ {
                        assert(next[i as int] == v);
                    }
                }
                let target = Map::new(
                    |v: Seq<char>|
                        next.contains(v) && live_viewers(before[v], now).dom().len() > 0,
                    |v: Seq<char>| live_viewers(before[v], now),
                );
                let prev = views(kept_before@);
                assert forall|v: Seq<char>| views(kept@).dom().contains(v)
                    <==> target.dom().contains(v) by {
                    assert(prev.dom().contains(v) <==> kept_before@.dom().contains(v));
                    assert(views(kept@).dom().contains(v) <==> kept@.dom().contains(v));
                }
                assert forall|v: Seq<char>| views(kept@).dom().contains(v) implies views(
                    kept@,
                )[v] == target[v] by {
                    assert(kept@.dom().contains(v));
                    assert(views(kept@)[v] == kept@[v]@);
                    if v != key@ {
                        assert(kept_before@.dom().contains(v));
                        assert(prev.dom().contains(v));
                        assert(prev[v] == kept_before@[v]@);
                        assert(kept@[v] == kept_before@[v]);
                        assert(prev[v] == live_viewers(before[v], now));
                    } else {
                        assert(count > 0);
                        assert(kept@[v]@ == live_viewers(viewers@, now));
                    }
                }
                assert(views(kept@) =~= target);
            }
            i += 1;
        }
        proof {
            self.videos.lemma_entries();
            kept.lemma_entries();
            let ks = self.videos.key_seq();
            assert(ks.take(i as int) =~= ks);
            assert forall|v: Seq<char>| ks.contains(v) <==> before.dom().contains(v) by {
                assert(ks.to_set().contains(v) <==> ks.contains(v));
            }
            assert(views(kept@) =~= evicted(before, now));
            let kk = kept.key_seq();
            assert forall|k: int| 0 <= k < counts@.len() implies kept@.dom().contains(
                (#[trigger] counts@[k]).0@,
            ) && counts@[k].1 == kept@[counts@[k].0@]@.dom().len() by {
                assert(kept@.dom().contains(kk[k]));
            }
            assert forall|a: int, b: int|
                0 <= a < counts@.len() && 0 <= b < counts@.len() && a != b implies (
            #[trigger] counts@[a]).0@ != (#[trigger] counts@[b]).0@ by {
                assert(kk[a] != kk[b]);
            }
            assert forall|v: Seq<char>| kept@.dom().contains(v) implies exists|k: int|
                0 <= k < counts@.len() && (#[trigger] counts@[k]).0@ == v by {
                assert(kk.to_set().contains(v));
                let k = choose|k: int| 0 <= k < kk.len() && kk[k] == v;
                assert(counts@[k].0@ == v);
            }
        }
        self.videos = kept;
        counts
    }
}

/// Records a heartbeat of the viewer (`ip`, `user_agent`) for `video_id`.
///
/// The clock is read once: the tracker is then what [`Presence::heartbeat_at`]
/// makes of it for some reading of the clock.
pub fn heartbeat(presence: &mut Presence, video_id: &str, ip: &str, user_agent: &str)
    requires
        old(presence).wf(),
    ensures
        final(presence).wf(),
        exists|now: u64|
            final(presence)@ == with_heartbeat(
                old(presence)@,
                video_id@,
                viewer_key(ip@, user_agent@),
                now,
            ),
{
    let now = crate::clock::now_millis();
    presence.heartbeat_at(video_id, ip, user_agent, now);
    assert(presence@ == with_heartbeat(
        old(presence)@,
        video_id@,
        viewer_key(ip@, user_agent@),
        now,
    ));
}

} // verus!
