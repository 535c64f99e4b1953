//! The ingress throttle: a per-client sliding-window request counter.
//!
//! Each client identity owns a window that opens at its first request.
//! On every check the stale windows are pruned, then the client either
//! starts a window with count one, or increments its count while under the
//! limit, or is denied.  The caller supplies the current time as a plain
//! number; window length and timestamps use the same unit.

use vstd::prelude::*;

verus! {

/// One client's current window: when it opened and how many requests it
/// has admitted.
pub struct ClientWindow {
    pub ident: String,
    pub start: u64,
    pub count: u32,
}

/// The mathematical view of a [`ClientWindow`].
pub struct WindowView {
    pub ident: Seq<char>,
    pub start: u64,
    pub count: u32,
}

impl View for ClientWindow {
    type V = WindowView;

    open spec fn view(&self) -> WindowView {
        WindowView { ident: self.ident@, start: self.start, count: self.count }
    }
}

/// The views of a sequence of client windows, in order.
pub open spec fn window_views(s: Seq<ClientWindow>) -> Seq<WindowView> {
    s.map_values(|e: ClientWindow| e@)
}

/// Whether a window still covers the instant `now`.
pub open spec fn window_live(e: WindowView, window: u64, now: u64) -> bool {
    now < e.start + window
}

/// The windows that survive pruning at `now`, in order.
pub open spec fn prune_model(s: Seq<WindowView>, window: u64, now: u64) -> Seq<WindowView>
    decreases s.len(),
{
    if s.len() == 0 {
        Seq::empty()
    } else if window_live(s[0], window, now) {
        seq![s[0]] + prune_model(s.drop_first(), window, now)
    } else {
        prune_model(s.drop_first(), window, now)
    }
}

/// The first window recorded for `ident`, if any.
pub open spec fn entry_for(s: Seq<WindowView>, ident: Seq<char>) -> Option<WindowView>
    decreases s.len(),
{
    if s.len() == 0 {
        None
    } else if s[0].ident == ident {
        Some(s[0])
    } else {
        entry_for(s.drop_first(), ident)
    }
}

/// The index of the first window recorded for `ident`.
pub open spec fn entry_index(s: Seq<WindowView>, ident: Seq<char>) -> int
    decreases s.len(),
{
    if s.len() == 0 {
        -1
    } else if s[0].ident == ident {
        0
    } else {
        1 + entry_index(s.drop_first(), ident)
    }
}

/// A window for `ident` found at index `k`, with none before it, is the
/// one `entry_for` and `entry_index` name.
pub proof fn lemma_entry_at(s: Seq<WindowView>, ident: Seq<char>, k: int)
    requires
        0 <= k < s.len(),
        s[k].ident == ident,
        forall|j: int| 0 <= j < k ==> s[j].ident != ident,
    ensures
        entry_for(s, ident) == Some(s[k]),
        entry_index(s, ident) == k,
    decreases k,
{
    if k > 0 {
        assert forall|j: int| 0 <= j < k - 1 implies s.drop_first()[j].ident != ident by {
            assert(s.drop_first()[j] == s[j + 1]);
        }
        assert(s.drop_first()[k - 1] == s[k]);
        lemma_entry_at(s.drop_first(), ident, k - 1);
    }
}

/// When no window carries `ident`, `entry_for` finds none.
pub proof fn lemma_entry_none(s: Seq<WindowView>, ident: Seq<char>)
    requires
        forall|j: int| 0 <= j < s.len() ==> (#[trigger] s[j]).ident != ident,
    ensures
        entry_for(s, ident) is None,
    decreases s.len(),
{
    if s.len() > 0 {
        assert forall|j: int| 0 <= j < s.drop_first().len() implies (#[trigger] s.drop_first()[j]).ident
            != ident by {
            assert(s.drop_first()[j] == s[j + 1]);
        }
        lemma_entry_none(s.drop_first(), ident);
    }
}

/// The per-client sliding-window throttle.
pub struct RateLimiter {
    requests: Vec<ClientWindow>,
    max_requests: u32,
    window: u64,
}

impl RateLimiter {
    /// The recorded windows, in insertion order.
    pub closed spec fn entries_view(self) -> Seq<WindowView> {
        window_views(self.requests@)
    }

    /// The configured per-window request limit.
    pub closed spec fn max_spec(self) -> u32 {
        self.max_requests
    }

    /// The configured window length.
    pub closed spec fn window_spec(self) -> u64 {
        self.window
    }

    /// A fresh throttle admitting `max_requests` requests per client per
    /// window of `window_seconds`.
    pub fn new(max_requests: u32, window_seconds: u64) -> (r: RateLimiter)
        ensures
            r.entries_view() == Seq::<WindowView>::empty(),
            r.max_spec() == max_requests,
            r.window_spec() == window_seconds,
    {
        let r = RateLimiter { requests: Vec::new(), max_requests, window: window_seconds };
        proof {
            assert(r.entries_view() =~= Seq::<WindowView>::empty());
        }
        r
    }

    /// Whether a window starting at `start` still covers `now`.
    fn live(&self, start: u64, now: u64) -> (r: bool)
        ensures
            r == (now < start + self.window_spec()),
    {
        match start.checked_add(self.window) {
            Some(end) => now < end,
            None => true,
        }
    }

    /// Drops every window that no longer covers `now`.
    fn prune(&mut self, now: u64)
        ensures
            final(self).entries_view() == prune_model(
                old(self).entries_view(),
                old(self).window_spec(),
                now,
            ),
            final(self).max_spec() == old(self).max_spec(),
            final(self).window_spec() == old(self).window_spec(),
    {
        let ghost orig = window_views(self.requests@);
        let ghost w = self.window;
        let mut kept: Vec<ClientWindow> = Vec::new();
        let mut rest: Vec<ClientWindow> = Vec::new();
        core::mem::swap(&mut rest, &mut self.requests);
        let ghost mut i: int = 0;
        proof {
            assert(window_views(rest@) =~= orig);
            assert(orig.skip(0) =~= orig);
            assert(window_views(kept@) =~= Seq::<WindowView>::empty());
            assert(Seq::<WindowView>::empty() + prune_model(orig, w, now) =~= prune_model(
                orig,
                w,
                now,
            ));
        }
        while rest.len() > 0
            invariant
                0 <= i <= orig.len(),
                rest@.len() == orig.len() - i,
                forall|j: int| 0 <= j < rest@.len() ==> #[trigger] rest@[j]@ == orig[i + j],
                window_views(kept@) + prune_model(orig.skip(i), w, now) == prune_model(
                    orig,
                    w,
                    now,
                ),
                self.window == w,
                self.max_requests == old(self).max_spec(),
            decreases rest.len(),
        {
            let e = rest.remove(0);
            proof {
                assert(e@ == orig[i]);
                assert(orig.skip(i)[0] == orig[i]);
                assert(orig.skip(i).drop_first() =~= orig.skip(i + 1));
            }
            let is_live = self.live(e.start, now);
            let ghost kept_before = window_views(kept@);
            if is_live {
                kept.push(e);
                proof {
                    assert(window_views(kept@) =~= kept_before + seq![orig[i]]);
                    assert(window_views(kept@) + prune_model(orig.skip(i + 1), w, now)
                        =~= kept_before + prune_model(orig.skip(i), w, now));
                }
            }
            proof {
                i = i + 1;
            }
        }
        proof {
            assert(orig.skip(orig.len() as int) =~= Seq::<WindowView>::empty());
            assert(window_views(kept@) + prune_model(orig.skip(orig.len() as int), w, now)
                =~= window_views(kept@));
        }
        self.requests = kept;
    }

    /// Finds the index of the window recorded for `ident`, if any.
    fn find_ident(&self, ident: &str) -> (r: Option<usize>)
        ensures
            match r {
                Some(j) => {
                    &&& j < self.entries_view().len()
                    &&& self.entries_view()[j as int].ident == ident@
                    &&& entry_for(self.entries_view(), ident@) == Some(
                        self.entries_view()[j as int],
                    )
                    &&& entry_index(self.entries_view(), ident@) == j
                },
                None => entry_for(self.entries_view(), ident@) is None,
            },
    {
        let ident_owned = ident.to_owned();
        let mut j: usize = 0;
        while j < self.requests.len()
            invariant
                j <= self.requests@.len(),
                ident_owned@ == ident@,
                forall|k: int|
                    0 <= k < j ==> (#[trigger] window_views(self.requests@)[k]).ident != ident@,
            decreases self.requests@.len() - j,
        {
            proof {
                assert(window_views(self.requests@)[j as int] == self.requests@[j as int]@);
            }
            if self.requests[j].ident.eq(&ident_owned) {
                proof {
                    lemma_entry_at(window_views(self.requests@), ident@, j as int);
                }
                return Some(j);
            }
            j = j + 1;
        }
        proof {
            lemma_entry_none(window_views(self.requests@), ident@);
        }
        None
    }

    /// Checks one request from `ident` at instant `now`.  Stale windows
    /// are pruned first.  A client without a live window starts one with
    /// count one and is admitted; a client under the limit is counted and
    /// admitted; a client at the limit is denied and nothing changes.
    pub fn check_rate_limit(&mut self, ident: &str, now: u64) -> (admitted: bool)
        ensures
            final(self).max_spec() == old(self).max_spec(),
            final(self).window_spec() == old(self).window_spec(),
            ({
                let p = prune_model(old(self).entries_view(), old(self).window_spec(), now);
                match entry_for(p, ident@) {
                    Some(e) => {
                        &&& (admitted <==> e.count < old(self).max_spec())
                        &&& (admitted ==> final(self).entries_view() == p.update(
                            entry_index(p, ident@),
                            (WindowView {
                                ident: e.ident,
                                start: e.start,
                                count: (e.count + 1) as u32,
                            }),
                        ))
                        &&& (!admitted ==> final(self).entries_view() == p)
                    },
                    None => {
                        &&& admitted
                        &&& final(self).entries_view() == p.push(
                            (WindowView { ident: ident@, start: now, count: 1 }),
                        )
                    },
                }
            }),
    {
        self.prune(now);
        let found = self.find_ident(ident);
        match found {
            Some(j) => {
                let ghost before = window_views(self.requests@);
                if self.requests[j].count >= self.max_requests {
                    false
                } else {
                    let mut e = self.requests.remove(j);
                    e.count = e.count + 1;
                    self.requests.insert(j, e);
                    proof {
                        assert(window_views(self.requests@) =~= before.update(
                            j as int,
                            (WindowView {
                                ident: before[j as int].ident,
                                start: before[j as int].start,
                                count: (before[j as int].count + 1) as u32,
                            }),
                        ));
                    }
                    true
                }
            },
            None => {
                let ghost before = window_views(self.requests@);
                self.requests.push(ClientWindow { ident: ident.to_owned(), start: now, count: 1 });
                proof {
                    assert(window_views(self.requests@) =~= before.push(
                        (WindowView { ident: ident@, start: now, count: 1 }),
                    ));
                }
                true
            },
        }
    }
}

} // verus!
