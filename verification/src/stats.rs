//! Counters behind `/v4/stats` and the 1 Hz `stats` / `playerUpdate`
//! fan-out.

use vstd::prelude::*;
use vstd::string::StringExecFns;
use crate::session::{Session, SessionManager, Player};

verus! {

/// The first index whose pair carries this endpoint.
pub open spec fn find_count(m: Seq<(String, u32)>, k: Seq<char>) -> Option<int>
    decreases m.len(),
{
    if m.len() == 0 {
        None
    } else if m[0].0@ == k {
        Some(0int)
    } else {
        match find_count(m.drop_first(), k) {
            Some(i) => Some(i + 1),
            None => None,
        }
    }
}

pub proof fn lemma_find_count(m: Seq<(String, u32)>, k: Seq<char>)
    ensures
        match find_count(m, k) {
            Some(i) => 0 <= i < m.len() && m[i].0@ == k,
            None => forall|j: int| 0 <= j < m.len() ==> m[j].0@ != k,
        },
    decreases m.len(),
{
    if m.len() > 0 && m[0].0@ != k {
        lemma_find_count(m.drop_first(), k);
        match find_count(m.drop_first(), k) {
            Some(i) => {
                assert(m[i + 1] == m.drop_first()[i]);
            },
            None => {
                assert forall|j: int| 0 <= j < m.len() implies m[j].0@ != k by {
                    if j >= 1 {
                        assert(m[j] == m.drop_first()[j - 1]);
                    }
                }
            },
        }
    }
}

pub proof fn lemma_find_count_first(m: Seq<(String, u32)>, k: Seq<char>, i: int)
    requires
        0 <= i < m.len(),
        m[i].0@ == k,
        forall|j: int| 0 <= j < i ==> m[j].0@ != k,
    ensures
        find_count(m, k) == Some(i),
    decreases m.len(),
{
    if i > 0 {
        assert forall|j: int| 0 <= j < i - 1 implies m.drop_first()[j].0@ != k by {
            assert(m.drop_first()[j] == m[j + 1]);
        }
        assert(m.drop_first()[i - 1] == m[i]);
        lemma_find_count_first(m.drop_first(), k, i - 1);
    }
}

/// Per-endpoint request and error counters and the player gauges.
pub struct StatsManager {
    pub api_requests: Vec<(String, u32)>,
    pub api_errors: Vec<(String, u32)>,
    pub players: u32,
    pub playing_players: u32,
}

impl StatsManager {
    pub fn new() -> (r: Self)
        ensures
            r.api_requests@.len() == 0,
            r.api_errors@.len() == 0,
            r.players == 0,
            r.playing_players == 0,
    {
        StatsManager {
            api_requests: Vec::new(),
            api_errors: Vec::new(),
            players: 0,
            playing_players: 0,
        }
    }

    /// Counts one request on an endpoint, starting a counter at one when
    /// the endpoint is new; the count wraps at 32 bits.
    pub fn increment_api_request(&mut self, endpoint: &str)
        ensures
            bumped(old(self).api_requests@, final(self).api_requests@, endpoint@),
            final(self).api_errors@ == old(self).api_errors@,
            final(self).players == old(self).players,
            final(self).playing_players == old(self).playing_players,
    {
        bump(&mut self.api_requests, endpoint);
    }

    /// Counts one error on an endpoint, like `increment_api_request`.
    pub fn _increment_api_error(&mut self, endpoint: &str)
        ensures
            bumped(old(self).api_errors@, final(self).api_errors@, endpoint@),
            final(self).api_requests@ == old(self).api_requests@,
            final(self).players == old(self).players,
            final(self).playing_players == old(self).playing_players,
    {
        bump(&mut self.api_errors, endpoint);
    }

    pub fn set_players(&mut self, count: u32)
        ensures
            *final(self) == (StatsManager { players: count, ..*old(self) }),
    {
        self.players = count;
    }

    pub fn set_playing_players(&mut self, count: u32)
        ensures
            *final(self) == (StatsManager { playing_players: count, ..*old(self) }),
    {
        self.playing_players = count;
    }

    /// A snapshot of the request counters.
    pub fn _get_api_stats(&self) -> (r: Vec<(String, u32)>)
        ensures
            r@.len() == self.api_requests@.len(),
            forall|i: int|
                0 <= i < r@.len() ==> #[trigger] r@[i].0@ == self.api_requests@[i].0@ && r@[i].1
                    == self.api_requests@[i].1,
    {
        let mut out: Vec<(String, u32)> = Vec::new();
        let mut i: usize = 0;
        while i < self.api_requests.len()
            invariant
                i <= self.api_requests@.len(),
                out@.len() == i,
                forall|j: int|
                    0 <= j < i ==> #[trigger] out@[j].0@ == self.api_requests@[j].0@ && out@[j].1
                        == self.api_requests@[j].1,
            decreases self.api_requests@.len() - i,
        {
            let entry = (self.api_requests[i].0.clone(), self.api_requests[i].1);
            out.push(entry);
            i += 1;
        }
        out
    }
}

/// How one bump changes a counter map: the endpoint's counter is one
/// higher modulo 2^32, or newly one, and nothing else moved.
pub open spec fn bumped(before: Seq<(String, u32)>, after: Seq<(String, u32)>, k: Seq<char>) -> bool {
    match find_count(before, k) {
        Some(i) => after.len() == before.len() && after[i].0@ == k && after[i].1 == (((before[i].1
            + 1) % 0x100000000) as u32) && (forall|j: int|
            0 <= j < before.len() && j != i ==> after[j] == before[j]),
        None => after.len() == before.len() + 1 && after.drop_last() == before && after.last().0@
            == k && after.last().1 == 1,
    }
}

/// Adds one to an endpoint's counter.
fn bump(m: &mut Vec<(String, u32)>, endpoint: &str)
    ensures
        bumped(old(m)@, final(m)@, endpoint@),
{
    proof {
        lemma_find_count(m@, endpoint@);
    }
    let key = String::from_str(endpoint);
    let n = m.len();
    let mut i: usize = 0;
    while i < n
        invariant
            n == m@.len(),
            m@ == old(m)@,
            key@ == endpoint@,
            i <= n,
            forall|j: int| 0 <= j < i ==> m@[j].0@ != endpoint@,
        decreases n - i,
    {
        if m[i].0 == key {
            proof {
                lemma_find_count_first(m@, endpoint@, i as int);
            }
            let count = m[i].1;
            let key = m.remove(i).0;
            m.insert(i, (key, count.wrapping_add(1)));
            proof {
                assert(final(m)@.len() == old(m)@.len());
                assert(forall|j: int|
                    0 <= j < old(m)@.len() && j != i ==> final(m)@[j] == old(m)@[j]);
            }
            return ;
        }
        i += 1;
    }
    let ghost before = m@;
    m.push((key, 1));
    proof {
        assert(m@.drop_last() =~= before);
    }
}

/// The mathematical total of players across sessions.
pub open spec fn total_players(ss: Seq<Session>) -> int
    decreases ss.len(),
{
    if ss.len() == 0 {
        0
    } else {
        ss[0].players.players@.len() + total_players(ss.drop_first())
    }
}

/// How many of a session's players are playing: track set and not paused.
pub open spec fn playing_in(ps: Seq<Player>) -> int
    decreases ps.len(),
{
    if ps.len() == 0 {
        0
    } else {
        (if ps[0].track is Some && !ps[0].paused {
            1int
        } else {
            0int
        }) + playing_in(ps.drop_first())
    }
}

/// The mathematical total of playing players across sessions.
pub open spec fn total_playing(ss: Seq<Session>) -> int
    decreases ss.len(),
{
    if ss.len() == 0 {
        0
    } else {
        playing_in(ss[0].players.players@) + total_playing(ss.drop_first())
    }
}

proof fn lemma_playing_in_nonneg(ps: Seq<Player>)
    ensures
        playing_in(ps) >= 0,
    decreases ps.len(),
{
    if ps.len() > 0 {
        lemma_playing_in_nonneg(ps.drop_first());
    }
}

proof fn lemma_totals_nonneg(ss: Seq<Session>)
    ensures
        total_players(ss) >= 0,
        total_playing(ss) >= 0,
    decreases ss.len(),
{
    if ss.len() > 0 {
        lemma_playing_in_nonneg(ss[0].players.players@);
        lemma_totals_nonneg(ss.drop_first());
    }
}

proof fn lemma_total_players_push(ss: Seq<Session>, s: Session)
    ensures
        total_players(ss.push(s)) == total_players(ss) + s.players.players@.len(),
        total_playing(ss.push(s)) == total_playing(ss) + playing_in(s.players.players@),
    decreases ss.len(),
{
    reveal_with_fuel(total_players, 3);
    reveal_with_fuel(total_playing, 3);
    if ss.len() == 0 {
        assert(ss.push(s)[0] == s);
        assert(ss.push(s).drop_first() =~= Seq::<Session>::empty());
    } else {
        assert(ss.push(s)[0] == ss[0]);
        assert(ss.push(s).drop_first() =~= ss.drop_first().push(s));
        lemma_total_players_push(ss.drop_first(), s);
    }
}

proof fn lemma_playing_in_push(ps: Seq<Player>, p: Player)
    ensures
        playing_in(ps.push(p)) == playing_in(ps) + (if p.track is Some && !p.paused {
            1int
        } else {
            0int
        }),
    decreases ps.len(),
{
    reveal_with_fuel(playing_in, 3);
    if ps.len() == 0 {
        assert(ps.push(p)[0] == p);
        assert(ps.push(p).drop_first() =~= Seq::<Player>::empty());
    } else {
        assert(ps.push(p)[0] == ps[0]);
        assert(ps.push(p).drop_first() =~= ps.drop_first().push(p));
        lemma_playing_in_push(ps.drop_first(), p);
    }
}

/// A value clamped into 64 bits.
pub open spec fn cap64(x: int) -> u64 {
    if x > u64::MAX {
        u64::MAX
    } else if x < 0 {
        0u64
    } else {
        x as u64
    }
}

/// Counts all players and all playing players across live sessions, for
/// the gauges behind `/v4/stats`; a player is playing when it holds a
/// track and is not paused.
pub fn count_players(mgr: &SessionManager) -> (r: (u64, u64))
    ensures
        r.0 == cap64(total_players(mgr.sessions@)),
        r.1 == cap64(total_playing(mgr.sessions@)),
{
    let mut total: u64 = 0;
    let mut playing: u64 = 0;
    let mut i: usize = 0;
    proof {
        assert(mgr.sessions@.subrange(0, 0) =~= Seq::<Session>::empty());
    }
    while i < mgr.sessions.len()
        invariant
            i <= mgr.sessions@.len(),
            total == cap64(total_players(mgr.sessions@.subrange(0, i as int))),
            playing == cap64(total_playing(mgr.sessions@.subrange(0, i as int))),
        decreases mgr.sessions@.len() - i,
    {
        let players = &mgr.sessions[i].players.players;
        let mut j: usize = 0;
        let ghost base_playing = playing;
        proof {
            assert(players@.subrange(0, 0) =~= Seq::<Player>::empty());
        }
        while j < players.len()
            invariant
                j <= players@.len(),
                players == &mgr.sessions@[i as int].players.players,
                i < mgr.sessions@.len(),
                playing as int == cap64(
                    base_playing + playing_in(players@.subrange(0, j as int)),
                ),
                base_playing + playing_in(players@.subrange(0, j as int)) >= base_playing >= 0,
            decreases players@.len() - j,
        {
            proof {
                assert(players@.subrange(0, j as int + 1) =~= players@.subrange(0, j as int).push(
                    players@[j as int],
                ));
                lemma_playing_in_push(players@.subrange(0, j as int), players@[j as int]);
                lemma_playing_in_nonneg(players@.subrange(0, j as int));
            }
            let is_playing = match &players[j] {
                p => p.track.is_some() && !p.paused,
            };
            if is_playing {
                if playing < u64::MAX {
                    playing = playing + 1;
                }
            }
            j += 1;
        }
        proof {
            assert(players@.subrange(0, players@.len() as int) =~= players@);
            assert(mgr.sessions@.subrange(0, i as int + 1) =~= mgr.sessions@.subrange(
                0,
                i as int,
            ).push(mgr.sessions@[i as int]));
            lemma_total_players_push(mgr.sessions@.subrange(0, i as int), mgr.sessions@[i as int]);
            lemma_totals_nonneg(mgr.sessions@.subrange(0, i as int));
            lemma_playing_in_nonneg(players@);
        }
        let n = players.len();
        if n as u64 <= u64::MAX - total {
            total = total + (n as u64);
        } else {
            total = u64::MAX;
        }
        i += 1;
    }
    proof {
        assert(mgr.sessions@.subrange(0, mgr.sessions@.len() as int) =~= mgr.sessions@);
    }
    (total, playing)
}

/// One `playerUpdate` frame of the 1 Hz fan-out.
pub struct PlayerUpdateFrame {
    pub op: String,
    pub guild_id: String,
    pub time: u64,
    pub position: i64,
    pub connected: bool,
    pub ping: i64,
}

/// What one player's update frame carries: its guild, position,
/// connection flag and ping.
pub open spec fn frame_fields(p: Player) -> (Seq<char>, i64, bool, i64) {
    (p.guild_id@, p.state.position, p.connection is Some, p.state.ping)
}

/// The frames owed for a player list: one per player holding a track, in
/// list order, each carrying that player's state.
pub open spec fn update_views(ps: Seq<Player>) -> Seq<(Seq<char>, i64, bool, i64)>
    decreases ps.len(),
{
    if ps.len() == 0 {
        Seq::<(Seq<char>, i64, bool, i64)>::empty()
    } else {
        (if ps[0].track is Some {
            seq![frame_fields(ps[0])]
        } else {
            Seq::<(Seq<char>, i64, bool, i64)>::empty()
        }) + update_views(ps.drop_first())
    }
}

proof fn lemma_update_views_push(ps: Seq<Player>, p: Player)
    ensures
        update_views(ps.push(p)) == update_views(ps) + (if p.track is Some {
            seq![frame_fields(p)]
        } else {
            Seq::<(Seq<char>, i64, bool, i64)>::empty()
        }),
    decreases ps.len(),
{
    reveal_with_fuel(update_views, 3);
    if ps.len() == 0 {
        assert(ps.push(p)[0] == p);
        assert(ps.push(p).drop_first() =~= Seq::<Player>::empty());
        assert(update_views(ps) + (if p.track is Some {
            seq![frame_fields(p)]
        } else {
            Seq::<(Seq<char>, i64, bool, i64)>::empty()
        }) =~= update_views(ps.push(p)));
    } else {
        assert(ps.push(p)[0] == ps[0]);
        assert(ps.push(p).drop_first() =~= ps.drop_first().push(p));
        lemma_update_views_push(ps.drop_first(), p);
        assert(update_views(ps) + (if p.track is Some {
            seq![frame_fields(p)]
        } else {
            Seq::<(Seq<char>, i64, bool, i64)>::empty()
        }) =~= update_views(ps.push(p)));
    }
}

/// The 1 Hz `playerUpdate` frames for one session: exactly one frame per
/// player whose track is set, in registry order, carrying that player's
/// guild, position, connection flag and ping at the given time.
pub fn player_updates(players: &Vec<Player>, now_ms: u64) -> (r: Vec<PlayerUpdateFrame>)
    ensures
        r@.map_values(|f: PlayerUpdateFrame| (f.guild_id@, f.position, f.connected, f.ping))
            == update_views(players@),
        forall|k: int|
            0 <= k < r@.len() ==> {
                &&& (#[trigger] r@[k]).op@ == "playerUpdate"@
                &&& r@[k].time == now_ms
            },
{
    let mut out: Vec<PlayerUpdateFrame> = Vec::new();
    let mut i: usize = 0;
    proof {
        assert(players@.subrange(0, 0) =~= Seq::<Player>::empty());
        assert(out@.map_values(
            |f: PlayerUpdateFrame| (f.guild_id@, f.position, f.connected, f.ping),
        ) =~= update_views(players@.subrange(0, 0)));
    }
    while i < players.len()
        invariant
            i <= players@.len(),
            out@.map_values(|f: PlayerUpdateFrame| (f.guild_id@, f.position, f.connected, f.ping))
                == update_views(players@.subrange(0, i as int)),
            forall|k: int|
                0 <= k < out@.len() ==> {
                    &&& (#[trigger] out@[k]).op@ == "playerUpdate"@
                    &&& out@[k].time == now_ms
                },
        decreases players@.len() - i,
    {
        proof {
            assert(players@.subrange(0, i as int + 1) =~= players@.subrange(0, i as int).push(
                players@[i as int],
            ));
            lemma_update_views_push(players@.subrange(0, i as int), players@[i as int]);
        }
        let p = &players[i];
        if p.track.is_some() {
            let frame = PlayerUpdateFrame {
                op: String::from_str("playerUpdate"),
                guild_id: p.guild_id.clone(),
                time: now_ms,
                position: p.state.position,
                connected: p.connection.is_some(),
                ping: p.state.ping,
            };
            out.push(frame);
            proof {
                assert(out@.map_values(
                    |f: PlayerUpdateFrame| (f.guild_id@, f.position, f.connected, f.ping),
                ) =~= update_views(players@.subrange(0, i as int + 1)));
            }
        } else {
            proof {
                assert(out@.map_values(
                    |f: PlayerUpdateFrame| (f.guild_id@, f.position, f.connected, f.ping),
                ) =~= update_views(players@.subrange(0, i as int + 1)));
            }
        }
        i += 1;
    }
    proof {
        assert(players@.subrange(0, players@.len() as int) =~= players@);
    }
    out
}

} // verus!
