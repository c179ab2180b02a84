//! Sessions, players, and the mutation protocol behind the REST surface.
//!
//! A session owns one player per guild; both registries are association
//! vectors whose well-formedness says that no two entries share a key —
//! for sessions additionally that every id is sixteen alphanumerics.

use vstd::prelude::*;
use crate::track::{DecodedInfo, DecodedTrack, b64_of, decode_blob, info_matches, TrackText,
    TrackError, clone_opt_string, decode_track, opt_view};
use crate::voice::VoiceConnectionInfo;
use vstd::string::StringExecFns;
use rand::Rng;

verus! {

/// The last voice credentials the controller supplied for a player.
#[derive(Debug, PartialEq)]
pub struct VoiceState {
    pub token: String,
    pub endpoint: String,
    pub session_id: String,
}

impl Clone for VoiceState {
    fn clone(&self) -> (r: Self)
        ensures
            r == *self,
    {
        VoiceState {
            token: self.token.clone(),
            endpoint: self.endpoint.clone(),
            session_id: self.session_id.clone(),
        }
    }
}

/// A player's playback position report.
#[derive(Clone, Copy, Debug, PartialEq, Eq, Structural)]
pub struct PlayerState {
    pub time: u64,
    pub position: i64,
    pub connected: bool,
    pub ping: i64,
}

/// The track a player holds: the encoded blob and its metadata.
#[derive(Debug)]
pub struct TrackData {
    pub encoded: String,
    pub info: DecodedInfo,
}

impl Clone for TrackData {
    fn clone(&self) -> (r: Self)
        ensures
            r == *self,
    {
        TrackData { encoded: self.encoded.clone(), info: self.info.clone() }
    }
}

/// Copies an optional track.
pub fn clone_opt_track(o: &Option<TrackData>) -> (r: Option<TrackData>)
    ensures
        r == *o,
{
    match o {
        Some(t) => Some(t.clone()),
        None => None,
    }
}

/// Per-guild media state.
#[derive(Debug)]
pub struct Player {
    pub guild_id: String,
    pub track: Option<TrackData>,
    pub volume: u16,
    pub paused: bool,
    pub state: PlayerState,
    pub voice: Option<VoiceState>,
    pub connection: Option<VoiceConnectionInfo>,
}

impl Clone for Player {
    fn clone(&self) -> (r: Self)
        ensures
            r == *self,
    {
        Player {
            guild_id: self.guild_id.clone(),
            track: clone_opt_track(&self.track),
            volume: self.volume,
            paused: self.paused,
            state: self.state,
            voice: match &self.voice {
                Some(v) => Some(v.clone()),
                None => None,
            },
            connection: match &self.connection {
                Some(c) => Some(c.clone()),
                None => None,
            },
        }
    }
}

/// What a fresh player looks like: no track, full volume, not paused, not
/// connected, ping unknown.
pub open spec fn fresh_player(p: Player, gid: Seq<char>) -> bool {
    &&& p.guild_id@ == gid
    &&& p.track is None
    &&& p.volume == 100
    &&& p.paused == false
    &&& p.state == (PlayerState { time: 0, position: 0, connected: false, ping: -1i64 })
    &&& p.voice is None
    &&& p.connection is None
}

impl Player {
    /// A fresh player for a guild.
    pub fn new(guild_id: String) -> (r: Self)
        ensures
            fresh_player(r, guild_id@),
    {
        Player {
            guild_id,
            track: None,
            volume: 100,
            paused: false,
            state: PlayerState { time: 0, position: 0, connected: false, ping: -1 },
            voice: None,
            connection: None,
        }
    }

    /// Tears down any previous connection state and records a new one for
    /// these credentials; the caller dials it.
    pub fn connect(&mut self, voice: VoiceState, user_id: String)
        ensures
            final(self).voice == Some(voice),
            final(self).connection matches Some(c) && fresh_connection(
                c,
                old(self).guild_id@,
                voice,
                user_id@,
            ),
            final(self).guild_id@ == old(self).guild_id@,
            final(self).track == old(self).track,
            final(self).volume == old(self).volume,
            final(self).paused == old(self).paused,
            final(self).state == old(self).state,
    {
        let conn = VoiceConnectionInfo {
            guild_id: self.guild_id.clone(),
            session_id: voice.session_id.clone(),
            token: voice.token.clone(),
            endpoint: voice.endpoint.clone(),
            user_id,
        };
        self.connection = Some(conn);
        self.voice = Some(voice);
    }
}

/// What a just-recorded connection for these credentials looks like.
pub open spec fn fresh_connection(
    c: VoiceConnectionInfo,
    guild_id: Seq<char>,
    voice: VoiceState,
    user_id: Seq<char>,
) -> bool {
    &&& c.guild_id@ == guild_id
    &&& c.session_id@ == voice.session_id@
    &&& c.token@ == voice.token@
    &&& c.endpoint@ == voice.endpoint@
    &&& c.user_id@ == user_id
}

/// A PATCH body for a player.
pub struct PlayerUpdatePayload {
    pub track: Option<UpdatePlayerTrack>,
    pub encoded_track: Option<String>,
    pub volume: Option<u16>,
    pub paused: Option<bool>,
    pub voice: Option<VoiceState>,
}

/// The track part of a PATCH body.
pub struct UpdatePlayerTrack {
    pub encoded: Option<String>,
    pub identifier: Option<String>,
}

/// What the caller must do after a PATCH is applied.
pub struct PatchEffects {
    /// Dial the player's (new) voice connection.
    pub connect: bool,
    /// Start playback of the player's (new) track.
    pub play: bool,
    /// Resolve this identifier, then commit the result.
    pub resolve_identifier: Option<String>,
}

/// Whether new credentials differ from the player's current ones.
pub open spec fn should_connect(p: Player, v: VoiceState) -> bool {
    match p.voice {
        Some(cur) => cur.token@ != v.token@ || cur.endpoint@ != v.endpoint@ || cur.session_id@
            != v.session_id@,
        None => true,
    }
}

/// The encoded track a PATCH body selects: the one inside `track` when
/// that object is present, else the top-level `encodedTrack`.
pub open spec fn selected_encoded(body: PlayerUpdatePayload) -> Option<Seq<char>> {
    match body.track {
        Some(t) => opt_view(t.encoded),
        None => opt_view(body.encoded_track),
    }
}

/// The identifier a PATCH body asks to resolve: only when `track` is
/// present without an encoded blob.
pub open spec fn selected_identifier(body: PlayerUpdatePayload) -> Option<Seq<char>> {
    match body.track {
        Some(t) => {
            if t.encoded is None {
                opt_view(t.identifier)
            } else {
                None
            }
        },
        None => None,
    }
}

/// How a player's track changes when an encoded blob `e` was given: a blob
/// whose bytes decode sets the track and starts playback, one that does
/// not leaves the player silent.
pub open spec fn track_after(
    newt: Option<TrackData>,
    oldt: Option<TrackData>,
    d: Result<TrackText, TrackError>,
    e: Seq<char>,
    play: bool,
) -> bool {
    match d {
        Ok(t) => newt matches Some(td) && td.encoded@ == e && info_matches(td.info, t) && play,
        Err(_) => newt == oldt && !play,
    }
}

/// The whole mutation contract of one PATCH on one player.
pub open spec fn patched(
    old_p: Player,
    new_p: Player,
    body: PlayerUpdatePayload,
    eff: PatchEffects,
    user_id: Seq<char>,
) -> bool {
    &&& new_p.guild_id@ == old_p.guild_id@
    &&& new_p.state == old_p.state
    &&& new_p.paused == (match body.paused {
        Some(p) => p,
        None => old_p.paused,
    })
    &&& new_p.volume == (match body.volume {
        Some(v) => v,
        None => old_p.volume,
    })
    &&& (match body.voice {
        Some(v) => {
            if should_connect(old_p, v) {
                &&& new_p.voice matches Some(w) && w.token@ == v.token@ && w.endpoint@
                    == v.endpoint@ && w.session_id@ == v.session_id@
                &&& new_p.connection matches Some(c) && fresh_connection(
                    c,
                    old_p.guild_id@,
                    v,
                    user_id,
                )
                &&& eff.connect
            } else {
                new_p.voice == old_p.voice && new_p.connection == old_p.connection
                    && !eff.connect
            }
        },
        None => new_p.voice == old_p.voice && new_p.connection == old_p.connection
            && !eff.connect,
    })
    &&& (match selected_encoded(body) {
        Some(e) => {
            &&& (forall|b: Seq<u8>|
                e == b64_of(b) ==> track_after(
                    new_p.track,
                    old_p.track,
                    #[trigger] decode_blob(b),
                    e,
                    eff.play,
                ))
            &&& ((!(exists|b: Seq<u8>| e == b64_of(b))) ==> new_p.track == old_p.track
                && !eff.play)
        },
        None => new_p.track == old_p.track && !eff.play,
    })
    &&& opt_view(eff.resolve_identifier) == selected_identifier(body)
}

impl Player {
    /// Applies one PATCH body: new voice credentials tear down and replace
    /// the connection, `paused` and `volume` are assigned, an encoded
    /// track is decoded, stored and played, and a bare identifier is
    /// handed back for resolution.
    pub fn update(&mut self, body: &PlayerUpdatePayload, user_id: &String) -> (eff: PatchEffects)
        ensures
            patched(*old(self), *final(self), *body, eff, user_id@),
    {
        let mut eff = PatchEffects { connect: false, play: false, resolve_identifier: None };
        match &body.voice {
            Some(v) => {
                let differs: bool = match &self.voice {
                    Some(cur) => !(cur.token == v.token) || !(cur.endpoint == v.endpoint) || !(
                    cur.session_id == v.session_id),
                    None => true,
                };
                if differs {
                    self.connect(v.clone(), user_id.clone());
                    eff.connect = true;
                }
            },
            None => {},
        }
        match body.paused {
            Some(p) => {
                self.paused = p;
            },
            None => {},
        }
        match body.volume {
            Some(vol) => {
                self.volume = vol;
            },
            None => {},
        }
        let encoded: &Option<String> = match &body.track {
            Some(t) => &t.encoded,
            None => &body.encoded_track,
        };
        match encoded {
            Some(e) => {
                match decode_track(e.as_str()) {
                    Ok(decoded) => {
                        self.track = Some(
                            TrackData { encoded: e.clone(), info: decoded.info },
                        );
                        eff.play = true;
                    },
                    Err(_) => {},
                }
            },
            None => {
                match &body.track {
                    Some(t) => {
                        eff.resolve_identifier = clone_opt_string(&t.identifier);
                    },
                    None => {},
                }
            },
        }
        eff
    }

    /// Stores a resolved track and starts playback.
    pub fn set_resolved(&mut self, track: &DecodedTrack)
        ensures
            final(self).track matches Some(td) && td.encoded@ == track.encoded@ && td.info
                == track.info,
            final(self).guild_id@ == old(self).guild_id@,
            final(self).volume == old(self).volume,
            final(self).paused == old(self).paused,
            final(self).state == old(self).state,
            final(self).voice == old(self).voice,
            final(self).connection == old(self).connection,
    {
        self.track = Some(TrackData { encoded: track.encoded.clone(), info: track.info.clone() });
    }
}

/// The index of the player for a guild, if any: the first match.
pub open spec fn find_player(ps: Seq<Player>, gid: Seq<char>) -> Option<int>
    decreases ps.len(),
{
    if ps.len() == 0 {
        None
    } else if ps[0].guild_id@ == gid {
        Some(0int)
    } else {
        match find_player(ps.drop_first(), gid) {
            Some(i) => Some(i + 1),
            None => None,
        }
    }
}

/// What a find yields: an index in range carrying the key, or the
/// guarantee that no entry carries it.
pub proof fn lemma_find_player(ps: Seq<Player>, gid: Seq<char>)
    ensures
        match find_player(ps, gid) {
            Some(i) => 0 <= i < ps.len() && ps[i].guild_id@ == gid,
            None => forall|j: int| 0 <= j < ps.len() ==> ps[j].guild_id@ != gid,
        },
    decreases ps.len(),
{
    if ps.len() > 0 && ps[0].guild_id@ != gid {
        lemma_find_player(ps.drop_first(), gid);
        match find_player(ps.drop_first(), gid) {
            Some(i) => {
                assert(ps[i + 1] == ps.drop_first()[i]);
            },
            None => {
                assert forall|j: int| 0 <= j < ps.len() implies ps[j].guild_id@ != gid by {
                    if j >= 1 {
                        assert(ps[j] == ps.drop_first()[j - 1]);
                    }
                }
            },
        }
    }
}

/// A find returns the first index whose entry carries the key.
pub proof fn lemma_find_player_first(ps: Seq<Player>, gid: Seq<char>, i: int)
    requires
        0 <= i < ps.len(),
        ps[i].guild_id@ == gid,
        forall|j: int| 0 <= j < i ==> ps[j].guild_id@ != gid,
    ensures
        find_player(ps, gid) == Some(i),
    decreases ps.len(),
{
    if i > 0 {
        assert forall|j: int| 0 <= j < i - 1 implies ps.drop_first()[j].guild_id@ != gid by {
            assert(ps.drop_first()[j] == ps[j + 1]);
        }
        assert(ps.drop_first()[i - 1] == ps[i]);
        lemma_find_player_first(ps.drop_first(), gid, i - 1);
    }
}

/// No two players of a well-formed map share a guild.
pub open spec fn wf_players(ps: Seq<Player>) -> bool {
    forall|i: int, j: int|
        0 <= i < j < ps.len() ==> #[trigger] ps[i].guild_id@ != #[trigger] ps[j].guild_id@
}

/// The per-session player map.
pub struct PlayerManager {
    pub players: Vec<Player>,
}

impl PlayerManager {
    pub fn new() -> (r: Self)
        ensures
            r.players@.len() == 0,
            wf_players(r.players@),
    {
        PlayerManager { players: Vec::new() }
    }

    /// The index of the player for a guild, if any.
    pub fn find(&self, guild_id: &String) -> (r: Option<usize>)
        ensures
            match r {
                Some(i) => find_player(self.players@, guild_id@) == Some(i as int),
                None => find_player(self.players@, guild_id@) is None,
            },
    {
        let mut i: usize = 0;
        while i < self.players.len()
            invariant
                i <= self.players@.len(),
                forall|j: int| 0 <= j < i ==> self.players@[j].guild_id@ != guild_id@,
            decreases self.players@.len() - i,
        {
            if self.players[i].guild_id == *guild_id {
                proof {
                    lemma_find_player_first(self.players@, guild_id@, i as int);
                }
                return Some(i);
            }
            i += 1;
        }
        proof {
            lemma_find_player(self.players@, guild_id@);
            match find_player(self.players@, guild_id@) {
                Some(k) => {
                    assert(self.players@[k].guild_id@ == guild_id@);
                },
                None => {},
            }
        }
        None
    }

    /// The index of the player for a guild, created fresh if absent.
    pub fn get_or_create(&mut self, guild_id: String) -> (i: usize)
        requires
            wf_players(old(self).players@),
        ensures
            wf_players(final(self).players@),
            i < final(self).players@.len(),
            final(self).players@[i as int].guild_id@ == guild_id@,
            find_player(final(self).players@, guild_id@) == Some(i as int),
            match find_player(old(self).players@, guild_id@) {
                Some(j) => j == i as int && final(self).players@ == old(self).players@,
                None => i as int == old(self).players@.len() && final(self).players@.len() == old(
                    self,
                ).players@.len() + 1 && final(self).players@.drop_last() == old(self).players@
                    && fresh_player(final(self).players@[i as int], guild_id@),
            },
    {
        match self.find(&guild_id) {
            Some(i) => {
                proof {
                    lemma_find_player(self.players@, guild_id@);
                }
                i
            },
            None => {
                proof {
                    lemma_find_player(self.players@, guild_id@);
                }
                let i = self.players.len();
                self.players.push(Player::new(guild_id));
                proof {
                    assert(self.players@.drop_last() =~= old(self).players@);
                    lemma_find_player_first(
                        self.players@,
                        self.players@[i as int].guild_id@,
                        i as int,
                    );
                }
                i
            },
        }
    }

    /// Removes the player for a guild; says whether one was there.
    pub fn remove(&mut self, guild_id: &String) -> (removed: bool)
        requires
            wf_players(old(self).players@),
        ensures
            wf_players(final(self).players@),
            match find_player(old(self).players@, guild_id@) {
                Some(i) => removed && final(self).players@ == old(self).players@.remove(i),
                None => !removed && final(self).players@ == old(self).players@,
            },
    {
        proof {
            lemma_find_player(self.players@, guild_id@);
        }
        match self.find(guild_id) {
            Some(i) => {
                self.players.remove(i);
                true
            },
            None => false,
        }
    }
}

/// A control-plane session: its id, its owner, and its players. The
/// outbound socket for the id lives with the caller, keyed by the id.
pub struct Session {
    pub id: String,
    pub user_id: String,
    pub client_name: String,
    pub players: PlayerManager,
}

/// An alphanumeric ASCII character.
pub open spec fn is_alnum_char(c: char) -> bool {
    ('a' <= c && c <= 'z') || ('A' <= c && c <= 'Z') || ('0' <= c && c <= '9')
}

/// A well-formed session id: sixteen alphanumerics.
pub open spec fn valid_session_id(s: Seq<char>) -> bool {
    s.len() == 16 && (forall|i: int| 0 <= i < 16 ==> is_alnum_char(#[trigger] s[i]))
}

/// The index of the session with an id, if any: the first match.
pub open spec fn find_session(ss: Seq<Session>, id: Seq<char>) -> Option<int>
    decreases ss.len(),
{
    if ss.len() == 0 {
        None
    } else if ss[0].id@ == id {
        Some(0int)
    } else {
        match find_session(ss.drop_first(), id) {
            Some(i) => Some(i + 1),
            None => None,
        }
    }
}

pub proof fn lemma_find_session(ss: Seq<Session>, id: Seq<char>)
    ensures
        match find_session(ss, id) {
            Some(i) => 0 <= i < ss.len() && ss[i].id@ == id,
            None => forall|j: int| 0 <= j < ss.len() ==> ss[j].id@ != id,
        },
    decreases ss.len(),
{
    if ss.len() > 0 && ss[0].id@ != id {
        lemma_find_session(ss.drop_first(), id);
        match find_session(ss.drop_first(), id) {
            Some(i) => {
                assert(ss[i + 1] == ss.drop_first()[i]);
            },
            None => {
                assert forall|j: int| 0 <= j < ss.len() implies ss[j].id@ != id by {
                    if j >= 1 {
                        assert(ss[j] == ss.drop_first()[j - 1]);
                    }
                }
            },
        }
    }
}

pub proof fn lemma_find_session_first(ss: Seq<Session>, id: Seq<char>, i: int)
    requires
        0 <= i < ss.len(),
        ss[i].id@ == id,
        forall|j: int| 0 <= j < i ==> ss[j].id@ != id,
    ensures
        find_session(ss, id) == Some(i),
    decreases ss.len(),
{
    if i > 0 {
        assert forall|j: int| 0 <= j < i - 1 implies ss.drop_first()[j].id@ != id by {
            assert(ss.drop_first()[j] == ss[j + 1]);
        }
        assert(ss.drop_first()[i - 1] == ss[i]);
        lemma_find_session_first(ss.drop_first(), id, i - 1);
    }
}

/// Well-formed session registry: ids are sixteen alphanumerics, no two
/// live sessions share one, and every player map is well-formed.
pub open spec fn wf_sessions(ss: Seq<Session>) -> bool {
    &&& forall|i: int, j: int|
        0 <= i < j < ss.len() ==> #[trigger] ss[i].id@ != #[trigger] ss[j].id@
    &&& forall|i: int| 0 <= i < ss.len() ==> valid_session_id(#[trigger] ss[i].id@)
    &&& forall|i: int| 0 <= i < ss.len() ==> wf_players(#[trigger] ss[i].players.players@)
}

/// Relies on rand's `Alphanumeric` distribution: each of the sixteen
/// sampled bytes is an ASCII letter or digit.
#[verifier::external_body]
fn random_alphanumeric_id() -> (r: String)
    ensures
        valid_session_id(r@),
{
    rand::rng().sample_iter(&rand::distr::Alphanumeric).take(16).map(char::from).collect()
}

/// The process-wide session registry.
pub struct SessionManager {
    pub sessions: Vec<Session>,
}

impl SessionManager {
    pub fn new() -> (r: Self)
        ensures
            r.sessions@.len() == 0,
            wf_sessions(r.sessions@),
    {
        SessionManager { sessions: Vec::new() }
    }

    /// The index of the session with this id, if any.
    pub fn lookup(&self, id: &String) -> (r: Option<usize>)
        ensures
            match r {
                Some(i) => find_session(self.sessions@, id@) == Some(i as int),
                None => find_session(self.sessions@, id@) is None,
            },
    {
        let mut i: usize = 0;
        while i < self.sessions.len()
            invariant
                i <= self.sessions@.len(),
                forall|j: int| 0 <= j < i ==> self.sessions@[j].id@ != id@,
            decreases self.sessions@.len() - i,
        {
            if self.sessions[i].id == *id {
                proof {
                    lemma_find_session_first(self.sessions@, id@, i as int);
                }
                return Some(i);
            }
            i += 1;
        }
        proof {
            lemma_find_session(self.sessions@, id@);
            match find_session(self.sessions@, id@) {
                Some(k) => {
                    assert(self.sessions@[k].id@ == id@);
                },
                None => {},
            }
        }
        None
    }

    /// Creates a session under a freshly drawn sixteen-alphanumeric id and
    /// returns the id; in the vanishing case that the id is already live,
    /// that session is replaced.
    pub fn create(&mut self, user_id: String, client_name: String) -> (id: String)
        requires
            wf_sessions(old(self).sessions@),
        ensures
            wf_sessions(final(self).sessions@),
            valid_session_id(id@),
            find_session(final(self).sessions@, id@) matches Some(i) && fresh_session(
                final(self).sessions@[i],
                id@,
                user_id@,
                client_name@,
            ),
            ({
                let before = old(self).sessions@;
                let after = final(self).sessions@;
                match find_session(before, id@) {
                    Some(j) => after.len() == before.len() && (forall|k: int|
                        0 <= k < before.len() && k != j ==> after[k] == before[k]),
                    None => after.len() == before.len() + 1 && after.drop_last() == before,
                }
            }),
    {
        let id = random_alphanumeric_id();
        let session = Session {
            id: id.clone(),
            user_id,
            client_name,
            players: PlayerManager::new(),
        };
        proof {
            lemma_find_session(self.sessions@, id@);
        }
        match self.lookup(&id) {
            Some(j) => {
                self.sessions.remove(j);
                self.sessions.insert(j, session);
                proof {
                    assert(forall|k: int|
                        0 <= k < self.sessions@.len() && k != j ==> self.sessions@[k] == old(self).sessions@[k]);
                    lemma_find_session_first(self.sessions@, id@, j as int);
                }
            },
            None => {
                let n = self.sessions.len();
                self.sessions.push(session);
                proof {
                    assert(self.sessions@.drop_last() =~= old(self).sessions@);
                    lemma_find_session_first(self.sessions@, id@, n as int);
                }
            },
        }
        id
    }

    /// Whether a session with this id is live, so that presenting it
    /// resumes that session; the caller then points the id's outbound
    /// socket at the new connection.
    pub fn resume(&self, session_id: &String) -> (found: bool)
        ensures
            found <==> find_session(self.sessions@, session_id@) is Some,
    {
        match self.lookup(session_id) {
            Some(_) => true,
            None => false,
        }
    }
}

/// How one PATCH changes a session's player list: the guild's player —
/// created fresh when absent — is replaced by a player related to its
/// predecessor by `patched`, and `snapshot` is that new player.
pub open spec fn players_patched(
    ps_old: Seq<Player>,
    ps_new: Seq<Player>,
    gid: Seq<char>,
    body: PlayerUpdatePayload,
    eff: PatchEffects,
    user: Seq<char>,
    snapshot: Player,
) -> bool {
    match find_player(ps_old, gid) {
        Some(pi) => ps_new == ps_old.update(pi, snapshot) && patched(
            ps_old[pi],
            snapshot,
            body,
            eff,
            user,
        ),
        None => ps_new.len() == ps_old.len() + 1 && ps_new.drop_last() == ps_old && ps_new.last()
            == snapshot && (exists|f: Player|
            fresh_player(f, gid) && patched(f, snapshot, body, eff, user)),
    }
}

impl SessionManager {
    /// Applies one PATCH to a session's player for a guild, creating the
    /// player when absent, and returns the effects together with the
    /// updated player.
    pub fn patch_player(&mut self, si: usize, guild_id: String, body: &PlayerUpdatePayload) -> (r:
        (PatchEffects, Player))
        requires
            si < old(self).sessions@.len(),
            wf_sessions(old(self).sessions@),
        ensures
            wf_sessions(final(self).sessions@),
            final(self).sessions@.len() == old(self).sessions@.len(),
            forall|k: int|
                0 <= k < old(self).sessions@.len() && k != si ==> final(self).sessions@[k] == old(self).sessions@[k],
            final(self).sessions@[si as int].id == old(self).sessions@[si as int].id,
            final(self).sessions@[si as int].user_id == old(self).sessions@[si as int].user_id,
            final(self).sessions@[si as int].client_name == old(self).sessions@[si as int].client_name,
            players_patched(
                old(self).sessions@[si as int].players.players@,
                final(self).sessions@[si as int].players.players@,
                guild_id@,
                *body,
                r.0,
                old(self).sessions@[si as int].user_id@,
                r.1,
            ),
    {
        let ghost before = self.sessions@;
        let mut s = self.sessions.remove(si);
        let pi = s.players.get_or_create(guild_id);
        let ghost ps_mid = s.players.players@;
        let mut p = s.players.players.remove(pi);
        let eff = p.update(body, &s.user_id);
        let snapshot = p.clone();
        s.players.players.insert(pi, p);
        proof {
            assert(s.players.players@ =~= ps_mid.update(pi as int, snapshot));
        }
        self.sessions.insert(si, s);
        proof {
            assert(forall|k: int|
                0 <= k < before.len() && k != si ==> self.sessions@[k] == before[k]);
            let ps_old = before[si as int].players.players@;
            match find_player(ps_old, guild_id@) {
                Some(_) => {
                    assert(self.sessions@[si as int].players.players@ =~= ps_old.update(
                        pi as int,
                        snapshot,
                    ));
                },
                None => {
                    assert(self.sessions@[si as int].players.players@.drop_last() =~= ps_old);
                    assert(ps_mid[pi as int] == ps_mid.last());
                },
            }
            assert(wf_players(self.sessions@[si as int].players.players@));
        }
        (eff, snapshot)
    }

    /// The session's player for a guild, created fresh when first
    /// referenced, as the GET and PATCH routes observe it.
    pub fn get_player(&mut self, si: usize, guild_id: String) -> (p: Player)
        requires
            si < old(self).sessions@.len(),
            wf_sessions(old(self).sessions@),
        ensures
            wf_sessions(final(self).sessions@),
            final(self).sessions@.len() == old(self).sessions@.len(),
            forall|k: int|
                0 <= k < old(self).sessions@.len() && k != si ==> final(self).sessions@[k] == old(self).sessions@[k],
            final(self).sessions@[si as int].id == old(self).sessions@[si as int].id,
            final(self).sessions@[si as int].user_id == old(self).sessions@[si as int].user_id,
            final(self).sessions@[si as int].client_name == old(self).sessions@[si as int].client_name,
            find_player(final(self).sessions@[si as int].players.players@, guild_id@)
                matches Some(pi) && final(self).sessions@[si as int].players.players@[pi] == p,
            ({
                let ps_old = old(self).sessions@[si as int].players.players@;
                let ps_new = final(self).sessions@[si as int].players.players@;
                match find_player(ps_old, guild_id@) {
                    Some(pi) => ps_new == ps_old && ps_old[pi] == p,
                    None => fresh_player(p, guild_id@) && ps_new.drop_last() == ps_old,
                }
            }),
    {
        let ghost before = self.sessions@;
        let mut s = self.sessions.remove(si);
        let pi = s.players.get_or_create(guild_id);
        let p = s.players.players[pi].clone();
        self.sessions.insert(si, s);
        proof {
            assert(forall|k: int|
                0 <= k < before.len() && k != si ==> self.sessions@[k] == before[k]);
        }
        p
    }

    /// A snapshot of a session's players, in registry order.
    pub fn list_players(&self, si: usize) -> (r: Vec<Player>)
        requires
            si < self.sessions@.len(),
        ensures
            r@ == self.sessions@[si as int].players.players@,
    {
        let players = &self.sessions[si].players.players;
        let mut out: Vec<Player> = Vec::new();
        let mut i: usize = 0;
        while i < players.len()
            invariant
                i <= players@.len(),
                out@ =~= players@.subrange(0, i as int),
                players == &self.sessions@[si as int].players.players,
            decreases players@.len() - i,
        {
            out.push(players[i].clone());
            proof {
                assert(out@ =~= players@.subrange(0, i as int + 1));
            }
            i += 1;
        }
        proof {
            assert(out@ =~= players@);
        }
        out
    }

    /// Removes a session's player for a guild; says whether one was there.
    pub fn remove_player(&mut self, si: usize, guild_id: &String) -> (removed: bool)
        requires
            si < old(self).sessions@.len(),
            wf_sessions(old(self).sessions@),
        ensures
            wf_sessions(final(self).sessions@),
            final(self).sessions@.len() == old(self).sessions@.len(),
            forall|k: int|
                0 <= k < old(self).sessions@.len() && k != si ==> final(self).sessions@[k] == old(self).sessions@[k],
            final(self).sessions@[si as int].id == old(self).sessions@[si as int].id,
            final(self).sessions@[si as int].user_id == old(self).sessions@[si as int].user_id,
            final(self).sessions@[si as int].client_name == old(self).sessions@[si as int].client_name,
            ({
                let ps_old = old(self).sessions@[si as int].players.players@;
                let ps_new = final(self).sessions@[si as int].players.players@;
                match find_player(ps_old, guild_id@) {
                    Some(i) => removed && 0 <= i < ps_old.len() && ps_new == ps_old.remove(i),
                    None => !removed && ps_new == ps_old,
                }
            }),
    {
        let ghost before = self.sessions@;
        let mut s = self.sessions.remove(si);
        proof {
            lemma_find_player(s.players.players@, guild_id@);
        }
        let removed = s.players.remove(guild_id);
        self.sessions.insert(si, s);
        proof {
            assert(forall|k: int|
                0 <= k < before.len() && k != si ==> self.sessions@[k] == before[k]);
        }
        removed
    }

    /// Stores a resolved track on a session's existing player, as the
    /// deferred half of a PATCH does once resolution finished; nothing
    /// happens when the session or player has meanwhile gone.
    pub fn commit_resolved(&mut self, session_id: &String, guild_id: &String, track: &DecodedTrack)
        -> (done: bool)
        requires
            wf_sessions(old(self).sessions@),
        ensures
            wf_sessions(final(self).sessions@),
            final(self).sessions@.len() == old(self).sessions@.len(),
            match find_session(old(self).sessions@, session_id@) {
                Some(si) => {
                    let ps_old = old(self).sessions@[si].players.players@;
                    let ps_new = final(self).sessions@[si].players.players@;
                    &&& (forall|k: int|
                        0 <= k < old(self).sessions@.len() && k != si
                            ==> final(self).sessions@[k] == old(self).sessions@[k])
                    &&& final(self).sessions@[si].id == old(self).sessions@[si].id
                    &&& (match find_player(ps_old, guild_id@) {
                        Some(pi) => {
                            &&& done
                            &&& ps_new[pi].track matches Some(td) && td.encoded@
                                == track.encoded@ && td.info == track.info
                            &&& ps_new == ps_old.update(pi, ps_new[pi])
                        },
                        None => !done && ps_new == ps_old,
                    })
                },
                None => !done && final(self).sessions@ == old(self).sessions@,
            },
    {
        let si = match self.lookup(session_id) {
            Some(si) => si,
            None => {
                return false;
            },
        };
        proof {
            lemma_find_session(self.sessions@, session_id@);
        }
        let ghost before = self.sessions@;
        let mut s = self.sessions.remove(si);
        let pi = match s.players.find(guild_id) {
            Some(pi) => pi,
            None => {
                self.sessions.insert(si, s);
                proof {
                    assert(forall|k: int|
                        0 <= k < before.len() && k != si ==> self.sessions@[k] == before[k]);
                }
                return false;
            },
        };
        proof {
            lemma_find_player(s.players.players@, guild_id@);
        }
        let ghost ps_old = s.players.players@;
        let mut p = s.players.players.remove(pi);
        p.set_resolved(track);
        s.players.players.insert(pi, p);
        proof {
            assert(s.players.players@ =~= ps_old.update(
                pi as int,
                s.players.players@[pi as int],
            ));
        }
        self.sessions.insert(si, s);
        proof {
            assert(forall|k: int|
                0 <= k < before.len() && k != si ==> self.sessions@[k] == before[k]);
            assert(wf_players(self.sessions@[si as int].players.players@));
        }
        true
    }
}

/// The frame sent right after a control socket is established.
pub struct ReadyPayload {
    pub op: String,
    pub resumed: bool,
    pub session_id: String,
}

impl SessionManager {
    /// Establishes the session for a new control socket: a valid
    /// `session-id` header resumes that session, anything else creates a
    /// fresh one; the answer is the ready frame to send.
    pub fn establish_session(
        &mut self,
        session_id: Option<String>,
        user_id: String,
        client_name: String,
    ) -> (r: ReadyPayload)
        requires
            wf_sessions(old(self).sessions@),
        ensures
            wf_sessions(final(self).sessions@),
            r.op@ == "ready"@,
            match session_id {
                Some(h) => {
                    if find_session(old(self).sessions@, h@) is Some {
                        &&& r.resumed
                        &&& r.session_id@ == h@
                        &&& final(self).sessions@ == old(self).sessions@
                    } else {
                        !r.resumed && created_with_id(
                            old(self).sessions@,
                            final(self).sessions@,
                            r.session_id@,
                            user_id@,
                            client_name@,
                        )
                    }
                },
                None => !r.resumed && created_with_id(
                    old(self).sessions@,
                    final(self).sessions@,
                    r.session_id@,
                    user_id@,
                    client_name@,
                ),
            },
    {
        let existing: Option<String> = match &session_id {
            Some(h) => {
                if self.resume(h) {
                    Some(h.clone())
                } else {
                    None
                }
            },
            None => None,
        };
        match existing {
            Some(h) => ReadyPayload {
                op: String::from_str("ready"),
                resumed: true,
                session_id: h,
            },
            None => {
                let id = self.create(user_id, client_name);
                ReadyPayload { op: String::from_str("ready"), resumed: false, session_id: id }
            },
        }
    }
}

/// What establishing a fresh session guarantees: the answered id is a
/// valid, newly live session id for the caller's identity.
pub open spec fn created_with_id(
    before: Seq<Session>,
    after: Seq<Session>,
    id: Seq<char>,
    user_id: Seq<char>,
    client_name: Seq<char>,
) -> bool {
    &&& valid_session_id(id)
    &&& find_session(after, id) matches Some(i) && fresh_session(
        after[i],
        id,
        user_id,
        client_name,
    )
}

/// What a just-created session looks like: the drawn id, the caller's
/// identity, no players.
pub open spec fn fresh_session(
    s: Session,
    id: Seq<char>,
    user_id: Seq<char>,
    client_name: Seq<char>,
) -> bool {
    &&& s.id@ == id
    &&& s.user_id@ == user_id
    &&& s.client_name@ == client_name
    &&& s.players.players@.len() == 0
}

/// No two live sessions share an id, and every id is sixteen
/// alphanumerics.
pub proof fn lemma_session_id_space(ss: Seq<Session>, i: int, j: int)
    requires
        wf_sessions(ss),
        0 <= i < ss.len(),
        0 <= j < ss.len(),
        i != j,
    ensures
        ss[i].id@ != ss[j].id@,
        valid_session_id(ss[i].id@),
{
    if i < j {
        assert(ss[i].id@ != ss[j].id@);
    } else {
        assert(ss[j].id@ != ss[i].id@);
    }
}

/// A write is read back: after storing an updated player over its old slot,
/// looking the guild up finds exactly the updated player — in particular a
/// PATCH that set `paused` is observed by the next GET.
pub proof fn lemma_read_your_writes(ps: Seq<Player>, i: int, q: Player)
    requires
        wf_players(ps),
        0 <= i < ps.len(),
        q.guild_id@ == ps[i].guild_id@,
    ensures
        wf_players(ps.update(i, q)),
        find_player(ps.update(i, q), q.guild_id@) == Some(i),
        ps.update(i, q)[i].paused == q.paused,
{
    let ps2 = ps.update(i, q);
    assert forall|j: int| 0 <= j < i implies ps2[j].guild_id@ != q.guild_id@ by {
        assert(ps[j].guild_id@ != ps[i].guild_id@);
    }
    lemma_find_player_first(ps2, q.guild_id@, i);
}

} // verus!
