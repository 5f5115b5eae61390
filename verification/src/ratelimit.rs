//! The relay's per-token rate limiter: a fixed-start one-hour window with a
//! request cap, one counter per push token.

use vstd::prelude::*;

verus! {

/// One token's window: how many requests it has used since the window
/// opened.
#[derive(Debug)]
pub struct RlEntry {
    pub token: String,
    pub count: u32,
    pub window_start: u64,
}

/// Ghost mirror of an entry's counter state.
pub struct RlWindow {
    pub count: u32,
    pub window_start: u64,
}

impl View for RlEntry {
    type V = RlWindow;

    open spec fn view(&self) -> RlWindow {
        RlWindow { count: self.count, window_start: self.window_start }
    }
}

/// Counts requests per token and refuses those beyond the cap within one
/// hour of the window's start.
#[derive(Debug)]
pub struct RateLimiter {
    pub max_per_hour: u32,
    pub entries: Vec<RlEntry>,
}

/// The limiter's table read as a map keyed by token.
pub open spec fn rl_map_of(s: Seq<RlEntry>) -> Map<Seq<char>, RlWindow>
    decreases s.len(),
{
    if s.len() == 0 {
        Map::empty()
    } else {
        rl_map_of(s.drop_last()).insert(s.last().token@, s.last()@)
    }
}

pub open spec fn rl_unique(s: Seq<RlEntry>) -> bool {
    forall|i: int, j: int|
        0 <= i < j < s.len() ==> (#[trigger] s[i]).token@ != (#[trigger] s[j]).token@
}

/// Characterizes the limiter map, as the state lemmas do for the broker's
/// ledgers.
pub proof fn lemma_rl_map(s: Seq<RlEntry>)
    requires
        rl_unique(s),
    ensures
        forall|k: Seq<char>|
            #[trigger] rl_map_of(s).dom().contains(k) <==> exists|i: int|
                0 <= i < s.len() && (#[trigger] s[i]).token@ == k,
        forall|i: int| 0 <= i < s.len() ==> rl_map_of(s)[(#[trigger] s[i]).token@] == s[i]@,
    decreases s.len(),
{
    if s.len() > 0 {
        let front = s.drop_last();
        assert(rl_unique(front));
        lemma_rl_map(front);
        assert forall|k: Seq<char>| #[trigger]
            rl_map_of(s).dom().contains(k) implies exists|i: int|
            0 <= i < s.len() && (#[trigger] s[i]).token@ == k by {
            if k == s.last().token@ {
                assert(s[s.len() - 1].token@ == k);
            } else {
                assert(rl_map_of(front).dom().contains(k));
                let i = choose|i: int| 0 <= i < front.len() && (#[trigger] front[i]).token@ == k;
                assert(front[i] == s[i]);
                assert(s[i].token@ == k);
            }
        }
        assert forall|k: Seq<char>| (exists|i: int|
            0 <= i < s.len() && (#[trigger] s[i]).token@ == k) implies #[trigger] rl_map_of(
            s,
        ).dom().contains(k) by {
            let i = choose|i: int| 0 <= i < s.len() && (#[trigger] s[i]).token@ == k;
            if i < s.len() - 1 {
                assert(front[i].token@ == k);
                assert(rl_map_of(front).dom().contains(k));
            }
        }
        assert forall|i: int| 0 <= i < s.len() implies rl_map_of(s)[(#[trigger] s[i]).token@]
            == s[i]@ by {
            if i < s.len() - 1 {
                assert(front[i] == s[i]);
                assert(s[i].token@ != s.last().token@);
            }
        }
    }
}

/// Removing the entry at index `i` removes exactly its token.
pub proof fn lemma_rl_map_remove(s: Seq<RlEntry>, i: int)
    requires
        rl_unique(s),
        0 <= i < s.len(),
    ensures
        rl_unique(s.remove(i)),
        forall|j: int| 0 <= j < s.remove(i).len() ==> (#[trigger] s.remove(i)[j]).token@ != s[i].token@,
        rl_map_of(s.remove(i)) =~= rl_map_of(s).remove(s[i].token@),
{
    let t = s.remove(i);
    s.remove_ensures(i);
    assert(rl_unique(t));
    assert forall|j: int| 0 <= j < t.len() implies (#[trigger] t[j]).token@ != s[i].token@ by {
        if j < i {
            assert(t[j] == s[j]);
        } else {
            assert(t[j] == s[j + 1]);
        }
    }
    lemma_rl_map(s);
    lemma_rl_map(t);
    let key = s[i].token@;
    assert forall|k: Seq<char>| #[trigger]
        rl_map_of(t).dom().contains(k) implies rl_map_of(s).remove(key).dom().contains(k) by {
        let j = choose|j: int| 0 <= j < t.len() && (#[trigger] t[j]).token@ == k;
        if j < i {
            assert(s[j].token@ == k);
        } else {
            assert(s[j + 1].token@ == k);
        }
    }
    assert forall|k: Seq<char>| #[trigger]
        rl_map_of(s).remove(key).dom().contains(k) implies rl_map_of(t).dom().contains(k) by {
        let j = choose|j: int| 0 <= j < s.len() && (#[trigger] s[j]).token@ == k;
        if j < i {
            assert(t[j].token@ == k);
        } else {
            assert(j != i);
            assert(t[j - 1] == s[j]);
            assert(t[j - 1].token@ == k);
        }
    }
    assert forall|k: Seq<char>| rl_map_of(t).dom().contains(k) implies #[trigger] rl_map_of(
        t,
    )[k] == rl_map_of(s).remove(key)[k] by {
        let j = choose|j: int| 0 <= j < t.len() && (#[trigger] t[j]).token@ == k;
        assert(rl_map_of(t)[k] == t[j]@);
        if j < i {
            assert(s[j].token@ == k);
            assert(rl_map_of(s)[k] == s[j]@);
        } else {
            assert(s[j + 1].token@ == k);
            assert(rl_map_of(s)[k] == s[j + 1]@);
        }
    }
}

/// The window a request finds: the token's stored window, reset when more
/// than an hour has passed since it opened, or a fresh one for an unknown
/// token.
pub open spec fn rl_window_at(m: Map<Seq<char>, RlWindow>, token: Seq<char>, now: u64) -> RlWindow {
    let w = if m.dom().contains(token) {
        m[token]
    } else {
        RlWindow { count: 0, window_start: now }
    };
    if now >= w.window_start && now - w.window_start >= 3600 {
        RlWindow { count: 0, window_start: now }
    } else {
        w
    }
}

/// Whether the request at `now` is allowed: its window is under the cap.
pub open spec fn rl_allowed(
    m: Map<Seq<char>, RlWindow>,
    max: u32,
    token: Seq<char>,
    now: u64,
) -> bool {
    (rl_window_at(m, token, now).count as int) < max
}

/// The table after the request was counted (an allowed request uses one
/// slot of its window; a refused one leaves the window as it stands).
pub open spec fn rl_next(
    m: Map<Seq<char>, RlWindow>,
    max: u32,
    token: Seq<char>,
    now: u64,
) -> Map<Seq<char>, RlWindow> {
    let w = rl_window_at(m, token, now);
    if (w.count as int) < max {
        m.insert(token, RlWindow { count: (w.count + 1) as u32, window_start: w.window_start })
    } else {
        m.insert(token, w)
    }
}

impl View for RateLimiter {
    type V = Map<Seq<char>, RlWindow>;

    open spec fn view(&self) -> Map<Seq<char>, RlWindow> {
        rl_map_of(self.entries@)
    }
}

impl RateLimiter {
    pub open spec fn wf(self) -> bool {
        rl_unique(self.entries@)
    }

    /// An empty limiter with the given hourly cap.
    pub fn new(max_per_hour: u32) -> (r: RateLimiter)
        ensures
            r.wf(),
            r.max_per_hour == max_per_hour,
            r@ == Map::<Seq<char>, RlWindow>::empty(),
    {
        RateLimiter { max_per_hour: max_per_hour, entries: Vec::new() }
    }

    fn find_entry(&self, token: &String) -> (r: Option<usize>)
        ensures
            match r {
                Some(i) => i < self.entries@.len() && self.entries@[i as int].token@ == token@,
                None => forall|i: int|
                    0 <= i < self.entries@.len() ==> (#[trigger] self.entries@[i]).token@
                        != token@,
            },
    {
        let n = self.entries.len();
        let mut i: usize = 0;
        while i < n
            invariant
                n == self.entries@.len(),
                0 <= i <= n,
                forall|j: int| 0 <= j < i ==> (#[trigger] self.entries@[j]).token@ != token@,
            decreases n - i,
        {
            if self.entries[i].token == *token {
                return Some(i);
            }
            i = i + 1;
        }
        None
    }

    /// Counts a request for `token` at time `now` and says whether it is
    /// allowed: at most `max_per_hour` requests per token within one hour
    /// of its window's start; a later request opens a new window.
    pub fn check(&mut self, token: &String, now: u64) -> (allowed: bool)
        requires
            old(self).wf(),
        ensures
            final(self).wf(),
            final(self).max_per_hour == old(self).max_per_hour,
            allowed == rl_allowed(old(self)@, old(self).max_per_hour, token@, now),
            final(self)@ == rl_next(old(self)@, old(self).max_per_hour, token@, now),
    {
        let ghost s0 = self.entries@;
        proof {
            lemma_rl_map(s0);
        }
        let (count0, start0) = match self.find_entry(token) {
            Some(i) => {
                proof {
                    lemma_rl_map_remove(s0, i as int);
                }
                let e = self.entries.remove(i);
                (e.count, e.window_start)
            },
            None => {
                proof {
                    assert(rl_map_of(s0).remove(token@) =~= rl_map_of(s0));
                }
                (0u32, now)
            },
        };
        let (count1, start1) = if now >= start0 && now - start0 >= 3600 {
            (0u32, now)
        } else {
            (count0, start0)
        };
        let allowed = count1 < self.max_per_hour;
        let count2 = if allowed {
            count1 + 1
        } else {
            count1
        };
        let ghost s1 = self.entries@;
        proof {
            assert(rl_map_of(s1) =~= rl_map_of(s0).remove(token@));
            assert(forall|j: int| 0 <= j < s1.len() ==> (#[trigger] s1[j]).token@ != token@);
        }
        self.entries.push(RlEntry { token: token.clone(), count: count2, window_start: start1 });
        proof {
            let s2 = self.entries@;
            assert(s2.drop_last() =~= s1);
            assert(rl_unique(s2));
            assert(rl_map_of(s2) =~= rl_next(rl_map_of(s0), self.max_per_hour, token@, now));
        }
        allowed
    }
}

/// The cap is honored: a token whose open window has used up the cap is
/// refused until the window turns over.
pub proof fn lemma_rate_limit_cap(m: Map<Seq<char>, RlWindow>, max: u32, token: Seq<char>, now: u64)
    requires
        m.dom().contains(token),
        m[token].count >= max,
        now >= m[token].window_start,
        now - m[token].window_start < 3600,
    ensures
        !rl_allowed(m, max, token, now),
{
}

} // verus!
