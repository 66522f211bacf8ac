//! A setup session: the state of one series' veto/pick exchange, its
//! validated transitions and its finalization.
use vstd::prelude::*;
use crate::series::{
    generate, other_slot, pick_count, template_of, StepTemplateEntry, SeriesType, TeamSlot,
    VoteType,
};

verus! {

/// A team taking part in a series.
#[derive(Debug, Clone)]
pub struct Team {
    pub id: u64,
    pub name: String,
    pub role: u64,
}

/// A map that can be vetoed or picked.
#[derive(Debug, Clone)]
pub struct MapPoolEntry {
    pub id: u64,
    pub name: String,
}

/// A starting side.
#[derive(Debug, Clone, Copy, PartialEq, Eq, Hash, Structural)]
pub enum Side {
    CounterTerrorist,
    Terrorist,
}

/// A map chosen to be played, with the sides each team starts on.
#[derive(Debug, Clone)]
pub struct ResolvedMap {
    pub sequence_position: usize,
    pub map: MapPoolEntry,
    pub picked_by: TeamSlot,
    pub start_side_team_one: Option<Side>,
    pub start_side_team_two: Option<Side>,
}

/// One completed step: its kind, the team that acted and the map it named.
#[derive(Debug, Clone)]
pub struct StepRecord {
    pub kind: VoteType,
    pub actor: TeamSlot,
    pub map: MapPoolEntry,
}

/// Where a session stands.
#[derive(Debug, Clone, Copy, PartialEq, Eq, Hash, Structural)]
pub enum SessionState {
    Pending,
    InProgress,
    AwaitingSides,
    Completed,
    Expired,
}

/// Why an action or a request was refused.
#[derive(Debug, Clone, Copy, PartialEq, Eq, Hash, Structural)]
pub enum SetupError {
    InsufficientMapPool,
    NotYourTurn,
    InvalidActor,
    WrongStepType,
    MapAlreadyConsumed,
    UnknownMap,
    SideAlreadyChosen,
    SeriesAlreadyCompleted,
    SeriesExpired,
    IncompleteSetup,
    UnknownSeries,
    DuplicateSeries,
}

/// The finalized configuration of a series.
#[derive(Debug, Clone)]
pub struct MatchConfig {
    pub series_id: u64,
    pub maps: Vec<ResolvedMap>,
    pub completed_at: u64,
}

/// The live state of one series' veto/pick exchange. It changes only through
/// the validated transitions below.
pub struct SetupSession {
    series_id: u64,
    team_one: Team,
    team_two: Team,
    series_type: SeriesType,
    template: Vec<StepTemplateEntry>,
    cursor: usize,
    pool: Vec<MapPoolEntry>,
    remaining_pool: Vec<MapPoolEntry>,
    resolved_maps: Vec<ResolvedMap>,
    history: Vec<StepRecord>,
    state: SessionState,
    created_at: u64,
    deadline: Option<u64>,
    config: Option<MatchConfig>,
}

/// The mathematical content of a session.
pub struct SessionView {
    pub series_id: u64,
    pub team_one: Team,
    pub team_two: Team,
    pub series_type: SeriesType,
    pub template: Seq<StepTemplateEntry>,
    pub cursor: nat,
    pub pool: Seq<MapPoolEntry>,
    pub remaining: Seq<MapPoolEntry>,
    pub resolved: Seq<ResolvedMap>,
    pub history: Seq<StepRecord>,
    pub state: SessionState,
    pub created_at: u64,
    pub deadline: Option<u64>,
    pub config: Option<MatchConfigView>,
}

/// The mathematical content of a finalized configuration.
pub struct MatchConfigView {
    pub series_id: u64,
    pub maps: Seq<ResolvedMap>,
    pub completed_at: u64,
}

impl View for MatchConfig {
    type V = MatchConfigView;

    open spec fn view(&self) -> MatchConfigView {
        MatchConfigView { series_id: self.series_id, maps: self.maps@, completed_at: self.completed_at }
    }
}

impl View for SetupSession {
    type V = SessionView;

    closed spec fn view(&self) -> SessionView {
        SessionView {
            series_id: self.series_id,
            team_one: self.team_one,
            team_two: self.team_two,
            series_type: self.series_type,
            template: self.template@,
            cursor: self.cursor as nat,
            pool: self.pool@,
            remaining: self.remaining_pool@,
            resolved: self.resolved_maps@,
            history: self.history@,
            state: self.state,
            created_at: self.created_at,
            deadline: self.deadline,
            config: match self.config {
                Some(c) => Some(c@),
                None => None,
            },
        }
    }
}

/// The other starting side.
pub open spec fn opposite(side: Side) -> Side {
    match side {
        Side::CounterTerrorist => Side::Terrorist,
        Side::Terrorist => Side::CounterTerrorist,
    }
}

/// The ids of the entries are pairwise distinct.
pub open spec fn distinct_ids(s: Seq<MapPoolEntry>) -> bool {
    forall|i: int, j: int| 0 <= i < j < s.len() ==> s[i].id != s[j].id
}

/// Some entry has this id.
pub open spec fn contains_id(s: Seq<MapPoolEntry>, id: u64) -> bool {
    exists|i: int| 0 <= i < s.len() && s[i].id == id
}

/// The position of the entry with this id (meaningful when there is one).
pub open spec fn index_of(s: Seq<MapPoolEntry>, id: u64) -> int {
    choose|i: int| 0 <= i < s.len() && s[i].id == id
}

/// Some resolved map has this map id.
pub open spec fn resolved_contains(s: Seq<ResolvedMap>, id: u64) -> bool {
    exists|i: int| 0 <= i < s.len() && s[i].map.id == id
}

/// The position of the resolved map with this map id (meaningful when
/// there is one).
pub open spec fn resolved_index(s: Seq<ResolvedMap>, id: u64) -> int {
    choose|i: int| 0 <= i < s.len() && s[i].map.id == id
}

/// No side is chosen yet.
pub open spec fn sides_open(m: ResolvedMap) -> bool {
    m.start_side_team_one is None && m.start_side_team_two is None
}

/// Both sides are chosen and differ.
pub open spec fn sides_resolved(m: ResolvedMap) -> bool {
    &&& m.start_side_team_one is Some
    &&& m.start_side_team_two == Some(opposite(m.start_side_team_one->Some_0))
}

/// Some picked map still waits for its side choice.
pub open spec fn any_sides_open(s: Seq<ResolvedMap>) -> bool {
    exists|i: int| 0 <= i < s.len() && sides_open(#[trigger] s[i])
}

/// The ids of the picked maps that wait for a side choice, in pick order.
pub open spec fn open_ids(s: Seq<ResolvedMap>) -> Seq<u64>
    decreases s.len(),
{
    if s.len() == 0 {
        Seq::empty()
    } else if sides_open(s.last()) {
        open_ids(s.drop_last()).push(s.last().map.id)
    } else {
        open_ids(s.drop_last())
    }
}

/// One line of a transcript.
pub open spec fn step_line(kind: VoteType, team: Seq<char>, map: Seq<char>) -> Seq<char> {
    if kind == VoteType::Veto {
        "- "@ + team + " banned "@ + map + "\n"@
    } else {
        "+ "@ + team + " picked "@ + map + "\n"@
    }
}

/// The outcome of finalizing the session `old` at `now`: the result `r` and
/// the session `new` afterwards.
pub open spec fn finalize_post(
    old: SessionView,
    now: u64,
    r: Result<MatchConfig, SetupError>,
    new: SessionView,
) -> bool {
    if old.state != SessionState::Completed {
        r == Err::<MatchConfig, SetupError>(SetupError::IncompleteSetup) && new == old
    } else {
        &&& r is Ok
        &&& r->Ok_0@ == old.config_at(now)
        &&& new == SessionView { config: Some(old.config_at(now)), ..old }
    }
}

/// The state that a live session is in after `cursor` steps.
pub open spec fn live_state(cursor: nat, steps: nat, resolved: Seq<ResolvedMap>) -> SessionState {
    if cursor == 0 {
        SessionState::Pending
    } else if cursor < steps {
        SessionState::InProgress
    } else if any_sides_open(resolved) {
        SessionState::AwaitingSides
    } else {
        SessionState::Completed
    }
}

impl SessionView {
    /// The session's internal invariant.
    pub open spec fn wf(self) -> bool {
        &&& self.template == template_of(self.series_type)
        &&& self.cursor <= self.template.len()
        &&& self.template.len() <= self.pool.len()
        &&& self.remaining.len() + self.cursor == self.pool.len()
        &&& distinct_ids(self.pool)
        &&& distinct_ids(self.remaining)
        &&& forall|i: int|
            0 <= i < self.remaining.len() ==> contains_id(self.pool, #[trigger] self.remaining[i].id)
        &&& self.history.len() == self.cursor
        &&& forall|i: int|
            0 <= i < self.history.len() ==> (#[trigger] self.history[i]).kind
                == self.template[i].kind && self.history[i].actor == self.template[i].actor
        &&& self.resolved.len() == pick_count(self.template.subrange(0, self.cursor as int))
        &&& forall|i: int|
            0 <= i < self.resolved.len() ==> {
                &&& (#[trigger] self.resolved[i]).sequence_position == i
                &&& !contains_id(self.remaining, self.resolved[i].map.id)
                &&& sides_open(self.resolved[i]) || sides_resolved(self.resolved[i])
            }
        &&& forall|i: int, j: int|
            0 <= i < j < self.resolved.len() ==> self.resolved[i].map.id
                != self.resolved[j].map.id
        &&& self.state != SessionState::Expired ==> self.state == live_state(
            self.cursor,
            self.template.len(),
            self.resolved,
        )
        &&& self.config is Some ==> {
            &&& self.state == SessionState::Completed
            &&& self.config->Some_0.series_id == self.series_id
            &&& self.config->Some_0.maps == self.resolved
        }
    }

    /// A session that accepts no further change.
    pub open spec fn is_terminal(self) -> bool {
        self.state == SessionState::Completed || self.state == SessionState::Expired
    }

    /// The slot of the team with this id, when it is exactly one of the two.
    pub open spec fn slot_of(self, actor: u64) -> Option<TeamSlot> {
        if self.team_one.id == actor && self.team_two.id != actor {
            Some(TeamSlot::TeamOne)
        } else if self.team_two.id == actor && self.team_one.id != actor {
            Some(TeamSlot::TeamTwo)
        } else {
            None
        }
    }

    /// The first failed check for a veto or pick, if any.
    pub open spec fn step_error(self, actor: u64, kind: VoteType, map_id: u64) -> Option<SetupError> {
        if self.state == SessionState::Completed {
            Some(SetupError::SeriesAlreadyCompleted)
        } else if self.state == SessionState::Expired {
            Some(SetupError::SeriesExpired)
        } else if self.state == SessionState::AwaitingSides {
            Some(SetupError::WrongStepType)
        } else if self.slot_of(actor) is None {
            Some(SetupError::InvalidActor)
        } else if self.slot_of(actor) != Some(self.template[self.cursor as int].actor) {
            Some(SetupError::NotYourTurn)
        } else if kind != self.template[self.cursor as int].kind {
            Some(SetupError::WrongStepType)
        } else if !contains_id(self.remaining, map_id) {
            if contains_id(self.pool, map_id) {
                Some(SetupError::MapAlreadyConsumed)
            } else {
                Some(SetupError::UnknownMap)
            }
        } else {
            None
        }
    }

    /// The first failed check for a side choice, if any.
    pub open spec fn side_error(self, actor: u64, map_id: u64) -> Option<SetupError> {
        if self.state == SessionState::Completed {
            Some(SetupError::SeriesAlreadyCompleted)
        } else if self.state == SessionState::Expired {
            Some(SetupError::SeriesExpired)
        } else if self.slot_of(actor) is None {
            Some(SetupError::InvalidActor)
        } else if !resolved_contains(self.resolved, map_id) {
            Some(SetupError::UnknownMap)
        } else if self.slot_of(actor) != Some(
            other_slot(self.resolved[resolved_index(self.resolved, map_id)].picked_by),
        ) {
            Some(SetupError::NotYourTurn)
        } else if !sides_open(self.resolved[resolved_index(self.resolved, map_id)]) {
            Some(SetupError::SideAlreadyChosen)
        } else {
            None
        }
    }

    /// The session after the team `actor` validly chose `side` on `map_id`:
    /// that team starts on `side` and the other team on the opposite side.
    pub open spec fn after_side(self, actor: u64, map_id: u64, side: Side) -> SessionView {
        let i = resolved_index(self.resolved, map_id);
        let m = self.resolved[i];
        let own = Some(side);
        let theirs = Some(opposite(side));
        let m2 = if self.slot_of(actor) == Some(TeamSlot::TeamOne) {
            ResolvedMap { start_side_team_one: own, start_side_team_two: theirs, ..m }
        } else {
            ResolvedMap { start_side_team_one: theirs, start_side_team_two: own, ..m }
        };
        let resolved = self.resolved.update(i, m2);
        SessionView {
            resolved,
            state: live_state(self.cursor, self.template.len(), resolved),
            ..self
        }
    }

    /// The session marked expired, all else kept.
    pub open spec fn expired(self) -> SessionView {
        SessionView { state: SessionState::Expired, ..self }
    }

    /// The deadline has passed at `now`.
    pub open spec fn is_due(self, now: u64) -> bool {
        self.deadline matches Some(d) && now >= d
    }

    /// The configuration that finalizing at `now` hands out: the stored one
    /// if there is one, else a new one.
    pub open spec fn config_at(self, now: u64) -> MatchConfigView {
        match self.config {
            Some(c) => c,
            None => MatchConfigView {
                series_id: self.series_id,
                maps: self.resolved,
                completed_at: now,
            },
        }
    }

    /// The name of the team in `slot`.
    pub open spec fn team_name(self, slot: TeamSlot) -> Seq<char> {
        match slot {
            TeamSlot::TeamOne => self.team_one.name@,
            TeamSlot::TeamTwo => self.team_two.name@,
        }
    }

    /// The transcript of the first `n` steps.
    pub open spec fn transcript_upto(self, n: nat) -> Seq<char>
        decreases n,
    {
        if n == 0 || n > self.history.len() {
            Seq::empty()
        } else {
            let h = self.history[n - 1];
            self.transcript_upto((n - 1) as nat) + step_line(h.kind, self.team_name(h.actor), h.map.name@)
        }
    }

    /// The session after a valid veto or pick of `map_id`.
    pub open spec fn after_step(self, map_id: u64) -> SessionView {
        let step = self.template[self.cursor as int];
        let i = index_of(self.remaining, map_id);
        let m = self.remaining[i];
        let resolved = if step.kind == VoteType::Pick {
            self.resolved.push(
                ResolvedMap {
                    sequence_position: self.resolved.len() as usize,
                    map: m,
                    picked_by: step.actor,
                    start_side_team_one: None,
                    start_side_team_two: None,
                },
            )
        } else {
            self.resolved
        };
        SessionView {
            cursor: self.cursor + 1,
            remaining: self.remaining.remove(i),
            resolved,
            history: self.history.push(StepRecord { kind: step.kind, actor: step.actor, map: m }),
            state: live_state(self.cursor + 1, self.template.len(), resolved),
            ..self
        }
    }
}

/// Whether the map ids of a pool are pairwise distinct.
pub fn has_distinct_ids(pool: &Vec<MapPoolEntry>) -> (r: bool)
    ensures
        r == distinct_ids(pool@),
{
    let n = pool.len();
    let mut i: usize = 0;
    while i < n
        invariant
            n == pool@.len(),
            i <= n,
            forall|a: int, b: int| 0 <= a < b < n && a < i ==> pool@[a].id != pool@[b].id,
        decreases n - i,
    {
        let mut j: usize = i + 1;
        while j < n
            invariant
                n == pool@.len(),
                i < n,
                i < j <= n,
                forall|a: int, b: int| 0 <= a < b < n && a < i ==> pool@[a].id != pool@[b].id,
                forall|b: int| i < b < j ==> pool@[i as int].id != pool@[b].id,
            decreases n - j,
        {
            if pool[i].id == pool[j].id {
                return false;
            }
            j = j + 1;
        }
        i = i + 1;
    }
    true
}

impl SetupSession {
    /// Opens a session for a series whose teams and map pool are known.
    /// Fails when the pool is smaller than the series' template.
    pub fn start_setup(
        series_id: u64,
        team_one: Team,
        team_two: Team,
        series_type: SeriesType,
        map_pool: Vec<MapPoolEntry>,
        created_at: u64,
        deadline: Option<u64>,
    ) -> (r: Result<SetupSession, SetupError>)
        requires
            distinct_ids(map_pool@),
        ensures
            r is Err <==> map_pool@.len() < template_of(series_type).len(),
            r is Err ==> r == Err::<SetupSession, SetupError>(SetupError::InsufficientMapPool),
            r matches Ok(s) ==> {
                &&& s@.wf()
                &&& s@.series_id == series_id
                &&& s@.team_one == team_one
                &&& s@.team_two == team_two
                &&& s@.series_type == series_type
                &&& s@.template == template_of(series_type)
                &&& s@.cursor == 0
                &&& s@.pool == map_pool@
                &&& s@.remaining == map_pool@
                &&& s@.resolved.len() == 0
                &&& s@.history.len() == 0
                &&& s@.state == SessionState::Pending
                &&& s@.created_at == created_at
                &&& s@.deadline == deadline
                &&& s@.config is None
            },
    {
        let template = generate(series_type);
        if map_pool.len() < template.len() {
            return Err(SetupError::InsufficientMapPool);
        }
        let remaining_pool = copy_pool(&map_pool);
        let s = SetupSession {
            series_id,
            team_one,
            team_two,
            series_type,
            template,
            cursor: 0,
            pool: map_pool,
            remaining_pool,
            resolved_maps: Vec::new(),
            history: Vec::new(),
            state: SessionState::Pending,
            created_at,
            deadline,
            config: None,
        };
        assert(s@.template.subrange(0, 0) =~= Seq::<StepTemplateEntry>::empty());
        assert forall|i: int| 0 <= i < s@.remaining.len() implies contains_id(
            s@.pool,
            #[trigger] s@.remaining[i].id,
        ) by {
            assert(s@.pool[i].id == s@.remaining[i].id);
        }
        Ok(s)
    }
}

impl MapPoolEntry {
    /// An equal copy.
    pub fn duplicate(&self) -> (r: MapPoolEntry)
        ensures
            r == *self,
    {
        MapPoolEntry { id: self.id, name: self.name.clone() }
    }
}

/// An equal copy of a list of maps.
pub fn copy_pool(v: &Vec<MapPoolEntry>) -> (r: Vec<MapPoolEntry>)
    ensures
        r@ == v@,
{
    let mut r: Vec<MapPoolEntry> = Vec::new();
    let mut i: usize = 0;
    while i < v.len()
        invariant
            i <= v@.len(),
            r@ == v@.subrange(0, i as int),
        decreases v@.len() - i,
    {
        r.push(v[i].duplicate());
        assert(r@ =~= v@.subrange(0, i + 1));
        i = i + 1;
    }
    assert(r@ =~= v@);
    r
}


/// Removing one entry keeps the ids distinct, drops exactly that id and
/// keeps every other.
proof fn lemma_remove_entry(s: Seq<MapPoolEntry>, i: int)
    requires
        distinct_ids(s),
        0 <= i < s.len(),
    ensures
        distinct_ids(s.remove(i)),
        s.remove(i).len() + 1 == s.len(),
        forall|x: u64| #[trigger]
            contains_id(s.remove(i), x) <==> (contains_id(s, x) && x != s[i].id),
{
    let r = s.remove(i);
    assert forall|x: u64| #[trigger] contains_id(r, x) <==> (contains_id(s, x) && x != s[i].id) by {
        if contains_id(r, x) {
            let k = choose|k: int| 0 <= k < r.len() && r[k].id == x;
            if k < i {
                assert(s[k] == r[k]);
            } else {
                assert(s[k + 1] == r[k]);
            }
        }
        if contains_id(s, x) && x != s[i].id {
            let k = choose|k: int| 0 <= k < s.len() && s[k].id == x;
            if k < i {
                assert(r[k] == s[k]);
            } else {
                assert(r[k - 1] == s[k]);
            }
        }
    }
}

/// One more step adds one to the Pick count exactly when it is a Pick.
proof fn lemma_pick_count_step(t: Seq<StepTemplateEntry>, c: int)
    requires
        0 <= c < t.len(),
    ensures
        pick_count(t.subrange(0, c + 1)) == pick_count(t.subrange(0, c)) + if t[c].kind
            == VoteType::Pick {
            1nat
        } else {
            0nat
        },
{
    assert(t.subrange(0, c + 1).drop_last() =~= t.subrange(0, c));
}

/// The position of the entry with this id, if there is one.
pub fn find_map(v: &Vec<MapPoolEntry>, id: u64) -> (r: Option<usize>)
    ensures
        r is Some <==> contains_id(v@, id),
        r matches Some(i) ==> i < v@.len() && v@[i as int].id == id,
        r matches Some(i) ==> distinct_ids(v@) ==> i == index_of(v@, id),
        r matches Some(i) ==> i == first_index(v@, id),
{
    let mut i: usize = 0;
    while i < v.len()
        invariant
            i <= v@.len(),
            forall|k: int| 0 <= k < i ==> v@[k].id != id,
        decreases v@.len() - i,
    {
        if v[i].id == id {
            proof {
                if distinct_ids(v@) {
                    let k = index_of(v@, id);
                    assert(0 <= k < v@.len() && v@[k].id == id);
                }
                assert(is_first(v@, id, i as int));
                let f = first_index(v@, id);
                assert(is_first(v@, id, f));
                if f < i {
                    assert(v@[f].id != id);
                } else if f > i {
                    assert(v@[i as int].id != id);
                }
            }
            return Some(i);
        }
        i = i + 1;
    }
    None
}

/// The entry at `i` is the first one with this id.
pub open spec fn is_first(s: Seq<MapPoolEntry>, id: u64, i: int) -> bool {
    &&& 0 <= i < s.len()
    &&& s[i].id == id
    &&& forall|k: int| 0 <= k < i ==> s[k].id != id
}

/// The position of the first entry with this id (meaningful when there is one).
pub open spec fn first_index(s: Seq<MapPoolEntry>, id: u64) -> int {
    choose|i: int| is_first(s, id, i)
}

/// Whether some picked map still waits for its side choice.
fn any_open(v: &Vec<ResolvedMap>) -> (r: bool)
    ensures
        r == any_sides_open(v@),
{
    let mut i: usize = 0;
    while i < v.len()
        invariant
            i <= v@.len(),
            forall|k: int| 0 <= k < i ==> !sides_open(#[trigger] v@[k]),
        decreases v@.len() - i,
    {
        if v[i].start_side_team_one.is_none() && v[i].start_side_team_two.is_none() {
            assert(sides_open(v@[i as int]));
            return true;
        }
        i = i + 1;
    }
    false
}

impl SetupSession {
    /// The slot of the team with this id, when it is exactly one of the two.
    pub fn slot_of(&self, actor: u64) -> (r: Option<TeamSlot>)
        ensures
            r == self@.slot_of(actor),
    {
        if self.team_one.id == actor && self.team_two.id != actor {
            Some(TeamSlot::TeamOne)
        } else if self.team_two.id == actor && self.team_one.id != actor {
            Some(TeamSlot::TeamTwo)
        } else {
            None
        }
    }

    /// The state that the session's steps and side choices call for.
    fn compute_live_state(&self) -> (r: SessionState)
        ensures
            r == live_state(self.cursor as nat, self.template@.len(), self.resolved_maps@),
    {
        if self.cursor == 0 {
            SessionState::Pending
        } else if self.cursor < self.template.len() {
            SessionState::InProgress
        } else if any_open(&self.resolved_maps) {
            SessionState::AwaitingSides
        } else {
            SessionState::Completed
        }
    }

    /// A veto or pick of `map_id` by the team `actor`. Checks, in order, that
    /// the session still takes steps, that the actor is one of the two teams,
    /// that it is that team's turn, that the step has the expected kind and
    /// that the map is still in the pool; on the first failure nothing changes.
    pub fn submit_step(&mut self, actor: u64, kind: VoteType, map_id: u64) -> (r: Result<(), SetupError>)
        requires
            old(self)@.wf(),
        ensures
            final(self)@.wf(),
            match old(self)@.step_error(actor, kind, map_id) {
                Some(e) => r == Err::<(), SetupError>(e) && final(self)@ == old(self)@,
                None => r is Ok && final(self)@ == old(self)@.after_step(map_id),
            },
    {
        proof {
            crate::series::lemma_template_shape(self.series_type);
        }
        match self.state {
            SessionState::Completed => {
                return Err(SetupError::SeriesAlreadyCompleted);
            },
            SessionState::Expired => {
                return Err(SetupError::SeriesExpired);
            },
            SessionState::AwaitingSides => {
                return Err(SetupError::WrongStepType);
            },
            _ => {},
        }
        let slot = match self.slot_of(actor) {
            None => {
                return Err(SetupError::InvalidActor);
            },
            Some(s) => s,
        };
        let step = self.template[self.cursor];
        if slot != step.actor {
            return Err(SetupError::NotYourTurn);
        }
        if kind != step.kind {
            return Err(SetupError::WrongStepType);
        }
        let idx = match find_map(&self.remaining_pool, map_id) {
            None => {
                if find_map(&self.pool, map_id).is_some() {
                    return Err(SetupError::MapAlreadyConsumed);
                } else {
                    return Err(SetupError::UnknownMap);
                }
            },
            Some(i) => i,
        };
        let ghost old_view = self@;
        proof {
            lemma_remove_entry(self.remaining_pool@, idx as int);
            lemma_pick_count_step(self.template@, self.cursor as int);
        }
        let m = self.remaining_pool.remove(idx);
        if step.kind == VoteType::Pick {
            let pos = self.resolved_maps.len();
            self.resolved_maps.push(
                ResolvedMap {
                    sequence_position: pos,
                    map: m.duplicate(),
                    picked_by: step.actor,
                    start_side_team_one: None,
                    start_side_team_two: None,
                },
            );
        }
        self.history.push(StepRecord { kind: step.kind, actor: step.actor, map: m });
        self.cursor = self.cursor + 1;
        self.state = self.compute_live_state();
        proof {
            let v = self@;
            assert(v.remaining =~= old_view.remaining.remove(idx as int));
            assert forall|i: int| 0 <= i < v.remaining.len() implies contains_id(
                v.pool,
                #[trigger] v.remaining[i].id,
            ) by {
                if i < idx {
                    assert(v.remaining[i] == old_view.remaining[i]);
                } else {
                    assert(v.remaining[i] == old_view.remaining[i + 1]);
                }
            }
            assert forall|i: int| 0 <= i < v.history.len() implies (#[trigger] v.history[i]).kind
                == v.template[i].kind && v.history[i].actor == v.template[i].actor by {
                if i < old_view.history.len() {
                    assert(v.history[i] == old_view.history[i]);
                }
            }
            assert forall|i: int| 0 <= i < v.resolved.len() implies {
                &&& (#[trigger] v.resolved[i]).sequence_position == i
                &&& !contains_id(v.remaining, v.resolved[i].map.id)
                &&& sides_open(v.resolved[i]) || sides_resolved(v.resolved[i])
            } by {
                if i < old_view.resolved.len() {
                    assert(v.resolved[i] == old_view.resolved[i]);
                }
            }
            assert forall|i: int, j: int| 0 <= i < j < v.resolved.len() implies v.resolved[i].map.id
                != v.resolved[j].map.id by {
                if j == old_view.resolved.len() {
                    assert(v.resolved[i] == old_view.resolved[i]);
                    assert(contains_id(old_view.remaining, old_view.remaining[idx as int].id));
                } else {
                    assert(v.resolved[i] == old_view.resolved[i]);
                    assert(v.resolved[j] == old_view.resolved[j]);
                }
            }
            assert(v.history =~= old_view.after_step(map_id).history);
            assert(v.resolved =~= old_view.after_step(map_id).resolved);
        }
        Ok(())
    }
}

/// Appends one transcript line.
pub fn push_step_line(out: &mut String, kind: VoteType, team: &str, map: &str)
    ensures
        final(out)@ == old(out)@ + step_line(kind, team@, map@),
{
    if kind == VoteType::Veto {
        out.append("- ");
        out.append(team);
        out.append(" banned ");
        out.append(map);
        out.append("\n");
    } else {
        out.append("+ ");
        out.append(team);
        out.append(" picked ");
        out.append(map);
        out.append("\n");
    }
}

impl ResolvedMap {
    /// An equal copy.
    pub fn duplicate(&self) -> (r: ResolvedMap)
        ensures
            r == *self,
    {
        ResolvedMap {
            sequence_position: self.sequence_position,
            map: self.map.duplicate(),
            picked_by: self.picked_by,
            start_side_team_one: self.start_side_team_one,
            start_side_team_two: self.start_side_team_two,
        }
    }
}

/// An equal copy of a list of resolved maps.
pub fn copy_resolved(v: &Vec<ResolvedMap>) -> (r: Vec<ResolvedMap>)
    ensures
        r@ == v@,
{
    let mut r: Vec<ResolvedMap> = Vec::new();
    let mut i: usize = 0;
    while i < v.len()
        invariant
            i <= v@.len(),
            r@ == v@.subrange(0, i as int),
        decreases v@.len() - i,
    {
        r.push(v[i].duplicate());
        assert(r@ =~= v@.subrange(0, i + 1));
        i = i + 1;
    }
    assert(r@ =~= v@);
    r
}

impl MatchConfig {
    /// An equal copy.
    pub fn duplicate(&self) -> (r: MatchConfig)
        ensures
            r@ == self@,
    {
        MatchConfig {
            series_id: self.series_id,
            maps: copy_resolved(&self.maps),
            completed_at: self.completed_at,
        }
    }
}

/// The position of the resolved map with this id, if there is one.
fn find_resolved(v: &Vec<ResolvedMap>, id: u64) -> (r: Option<usize>)
    ensures
        r is Some <==> resolved_contains(v@, id),
        r matches Some(i) ==> i < v@.len() && v@[i as int].map.id == id,
        r matches Some(i) ==> (forall|a: int, b: int|
            0 <= a < b < v@.len() ==> v@[a].map.id != v@[b].map.id) ==> i == resolved_index(
            v@,
            id,
        ),
{
    let mut i: usize = 0;
    while i < v.len()
        invariant
            i <= v@.len(),
            forall|k: int| 0 <= k < i ==> v@[k].map.id != id,
        decreases v@.len() - i,
    {
        if v[i].map.id == id {
            proof {
                let k = resolved_index(v@, id);
                assert(0 <= k < v@.len() && v@[k].map.id == id);
            }
            return Some(i);
        }
        i = i + 1;
    }
    None
}

impl Side {
    /// The other side.
    pub fn opposite(&self) -> (r: Side)
        ensures
            r == opposite(*self),
    {
        match self {
            Side::CounterTerrorist => Side::Terrorist,
            Side::Terrorist => Side::CounterTerrorist,
        }
    }
}

impl SetupSession {
    /// The team `actor` chooses its starting `side` on the picked map
    /// `map_id`; the other team gets the opposite side. Only the team that
    /// did not pick the map chooses, and only once; on a failed check nothing
    /// changes.
    pub fn submit_side_choice(&mut self, actor: u64, map_id: u64, side: Side) -> (r: Result<(), SetupError>)
        requires
            old(self)@.wf(),
        ensures
            final(self)@.wf(),
            match old(self)@.side_error(actor, map_id) {
                Some(e) => r == Err::<(), SetupError>(e) && final(self)@ == old(self)@,
                None => r is Ok && final(self)@ == old(self)@.after_side(actor, map_id, side),
            },
    {
        match self.state {
            SessionState::Completed => {
                return Err(SetupError::SeriesAlreadyCompleted);
            },
            SessionState::Expired => {
                return Err(SetupError::SeriesExpired);
            },
            _ => {},
        }
        let slot = match self.slot_of(actor) {
            None => {
                return Err(SetupError::InvalidActor);
            },
            Some(s) => s,
        };
        let idx = match find_resolved(&self.resolved_maps, map_id) {
            None => {
                return Err(SetupError::UnknownMap);
            },
            Some(i) => i,
        };
        let cur = &self.resolved_maps[idx];
        if slot != cur.picked_by.other() {
            return Err(SetupError::NotYourTurn);
        }
        if cur.start_side_team_one.is_some() || cur.start_side_team_two.is_some() {
            return Err(SetupError::SideAlreadyChosen);
        }
        let own = Some(side);
        let theirs = Some(side.opposite());
        let (one, two) = match slot {
            TeamSlot::TeamOne => (own, theirs),
            TeamSlot::TeamTwo => (theirs, own),
        };
        let updated = ResolvedMap {
            sequence_position: cur.sequence_position,
            map: cur.map.duplicate(),
            picked_by: cur.picked_by,
            start_side_team_one: one,
            start_side_team_two: two,
        };
        let ghost old_view = self@;
        self.resolved_maps.set(idx, updated);
        self.state = self.compute_live_state();
        proof {
            let v = self@;
            assert(opposite(opposite(side)) == side);
            assert forall|i: int| 0 <= i < v.resolved.len() implies {
                &&& (#[trigger] v.resolved[i]).sequence_position == i
                &&& !contains_id(v.remaining, v.resolved[i].map.id)
                &&& sides_open(v.resolved[i]) || sides_resolved(v.resolved[i])
            } by {
                assert(old_view.resolved[i].sequence_position == i);
            }
            assert forall|i: int, j: int| 0 <= i < j < v.resolved.len() implies v.resolved[i].map.id
                != v.resolved[j].map.id by {
                assert(old_view.resolved[i].map.id != old_view.resolved[j].map.id);
            }
            assert(v.resolved =~= old_view.after_side(actor, map_id, side).resolved);
        }
        Ok(())
    }

    /// Marks a session that is not yet terminal as expired; a terminal one is
    /// left as it is. Returns whether it changed.
    pub fn expire(&mut self) -> (r: bool)
        requires
            old(self)@.wf(),
        ensures
            final(self)@.wf(),
            r == !old(self)@.is_terminal(),
            r ==> final(self)@ == old(self)@.expired(),
            !r ==> final(self)@ == old(self)@,
    {
        match self.state {
            SessionState::Completed | SessionState::Expired => false,
            _ => {
                self.state = SessionState::Expired;
                true
            },
        }
    }

    /// Whether the deadline has passed at `now`.
    pub fn is_due(&self, now: u64) -> (r: bool)
        ensures
            r == self@.is_due(now),
    {
        match self.deadline {
            Some(d) => now >= d,
            None => false,
        }
    }

    /// Expires the session when its deadline has passed at `now` and it is
    /// not yet terminal. Returns whether it changed.
    pub fn expire_if_due(&mut self, now: u64) -> (r: bool)
        requires
            old(self)@.wf(),
        ensures
            final(self)@.wf(),
            r == (!old(self)@.is_terminal() && old(self)@.is_due(now)),
            r ==> final(self)@ == old(self)@.expired(),
            !r ==> final(self)@ == old(self)@,
    {
        if self.is_due(now) {
            self.expire()
        } else {
            false
        }
    }

    /// The finalized configuration of a completed session, stamped `now`
    /// the first time; later calls hand out the same configuration.
    pub fn finalize(&mut self, now: u64) -> (r: Result<MatchConfig, SetupError>)
        requires
            old(self)@.wf(),
        ensures
            final(self)@.wf(),
            finalize_post(old(self)@, now, r, final(self)@),
    {
        if self.state != SessionState::Completed {
            return Err(SetupError::IncompleteSetup);
        }
        match &self.config {
            Some(c) => Ok(c.duplicate()),
            None => {
                let c = MatchConfig {
                    series_id: self.series_id,
                    maps: copy_resolved(&self.resolved_maps),
                    completed_at: now,
                };
                let out = c.duplicate();
                self.config = Some(c);
                Ok(out)
            },
        }
    }

    /// The rendered transcript: one line per step taken, in order,
    /// "- {team} banned {map}" for a veto and "+ {team} picked {map}" for a
    /// pick.
    pub fn transcript(&self) -> (r: String)
        requires
            self@.wf(),
        ensures
            r@ == self@.transcript_upto(self@.history.len()),
    {
        let mut out = String::new();
        let mut i: usize = 0;
        while i < self.history.len()
            invariant
                i <= self@.history.len(),
                out@ == self@.transcript_upto(i as nat),
            decreases self@.history.len() - i,
        {
            let h = &self.history[i];
            let team = match h.actor {
                TeamSlot::TeamOne => self.team_one.name.as_str(),
                TeamSlot::TeamTwo => self.team_two.name.as_str(),
            };
            push_step_line(&mut out, h.kind, team, h.map.name.as_str());
            i = i + 1;
        }
        out
    }

    /// The team whose turn it is to veto or pick, if a step is owed.
    pub fn current_actor(&self) -> (r: Option<TeamSlot>)
        requires
            self@.wf(),
        ensures
            r == (if self@.state == SessionState::Pending || self@.state == SessionState::InProgress {
                Some(self@.template[self@.cursor as int].actor)
            } else {
                None::<TeamSlot>
            }),
    {
        proof {
            crate::series::lemma_template_shape(self.series_type);
        }
        match self.state {
            SessionState::Pending | SessionState::InProgress => Some(self.template[self.cursor].actor),
            _ => None,
        }
    }

    /// The maps not yet vetoed or picked.
    pub fn remaining_maps(&self) -> (r: &Vec<MapPoolEntry>)
        ensures
            r@ == self@.remaining,
    {
        &self.remaining_pool
    }

    /// The ids of the picked maps that still wait for a side choice.
    pub fn pending_side_choices(&self) -> (r: Vec<u64>)
        ensures
            r@ == open_ids(self@.resolved),
    {
        let mut r: Vec<u64> = Vec::new();
        let mut i: usize = 0;
        while i < self.resolved_maps.len()
            invariant
                i <= self@.resolved.len(),
                r@ == open_ids(self@.resolved.subrange(0, i as int)),
            decreases self@.resolved.len() - i,
        {
            let m = &self.resolved_maps[i];
            assert(self@.resolved.subrange(0, i + 1).drop_last() =~= self@.resolved.subrange(0, i as int));
            if m.start_side_team_one.is_none() && m.start_side_team_two.is_none() {
                r.push(m.map.id);
            }
            i = i + 1;
        }
        assert(self@.resolved.subrange(0, i as int) =~= self@.resolved);
        r
    }

    /// The maps picked so far, in order.
    pub fn resolved_maps(&self) -> (r: &Vec<ResolvedMap>)
        ensures
            r@ == self@.resolved,
    {
        &self.resolved_maps
    }

    /// Where the session stands.
    pub fn state(&self) -> (r: SessionState)
        ensures
            r == self@.state,
    {
        self.state
    }

    /// The number of steps taken.
    pub fn cursor(&self) -> (r: usize)
        ensures
            r == self@.cursor,
    {
        self.cursor
    }

    /// The id of the session's series.
    pub fn series_id(&self) -> (r: u64)
        ensures
            r == self@.series_id,
    {
        self.series_id
    }

    /// The length of the session's series.
    pub fn series_type(&self) -> (r: SeriesType)
        ensures
            r == self@.series_type,
    {
        self.series_type
    }
}

/// In every well-formed session the cursor stays within the template and
/// the pool still holds one map fewer than it started with per step taken.
pub proof fn lemma_session_counts(v: SessionView)
    requires
        v.wf(),
    ensures
        v.cursor <= v.template.len(),
        v.remaining.len() == v.pool.len() - v.cursor,
{
}

/// No transition moves the cursor back: a step moves it on by one, and a
/// side choice, an expiry or a finalization leave it where it is.
pub proof fn lemma_cursor_never_decreases(
    v: SessionView,
    actor: u64,
    map_id: u64,
    side: Side,
    now: u64,
    r: Result<MatchConfig, SetupError>,
    fin: SessionView,
)
    requires
        finalize_post(v, now, r, fin),
    ensures
        v.after_step(map_id).cursor == v.cursor + 1,
        v.after_side(actor, map_id, side).cursor == v.cursor,
        v.expired().cursor == v.cursor,
        fin.cursor == v.cursor,
{
}

/// A veto or pick by the team whose turn it is not is refused with
/// `NotYourTurn` while the session takes steps.
pub proof fn lemma_wrong_team_refused(v: SessionView, actor: u64, kind: VoteType, map_id: u64)
    requires
        v.wf(),
        v.state == SessionState::Pending || v.state == SessionState::InProgress,
        v.slot_of(actor) is Some,
        v.slot_of(actor) != Some(v.template[v.cursor as int].actor),
    ensures
        v.step_error(actor, kind, map_id) == Some(SetupError::NotYourTurn),
{
}

/// Once a map has been vetoed or picked, no later step can take it again:
/// the next attempt is refused, and with `MapAlreadyConsumed` when it is
/// otherwise in order.
pub proof fn lemma_map_consumed_once(
    v: SessionView,
    actor: u64,
    kind: VoteType,
    map_id: u64,
    actor2: u64,
    kind2: VoteType,
)
    requires
        v.wf(),
        v.step_error(actor, kind, map_id) is None,
    ensures
        !contains_id(v.after_step(map_id).remaining, map_id),
        contains_id(v.after_step(map_id).pool, map_id),
        v.after_step(map_id).step_error(actor2, kind2, map_id) is Some,
        ({
            let w = v.after_step(map_id);
            (w.state == SessionState::Pending || w.state == SessionState::InProgress)
                && w.slot_of(actor2) == Some(w.template[w.cursor as int].actor) && kind2
                == w.template[w.cursor as int].kind ==> w.step_error(actor2, kind2, map_id) == Some(
                SetupError::MapAlreadyConsumed,
            )
        }),
{
    let i = index_of(v.remaining, map_id);
    assert(0 <= i < v.remaining.len() && v.remaining[i].id == map_id);
    lemma_remove_entry(v.remaining, i);
    assert(contains_id(v.pool, v.remaining[i].id));
}

/// A consumed map stays consumed: no step, side choice, expiry or
/// finalization puts it back into the pool.
pub proof fn lemma_consumed_stays(
    v: SessionView,
    id: u64,
    actor: u64,
    kind: VoteType,
    map_id: u64,
    side: Side,
    now: u64,
    r: Result<MatchConfig, SetupError>,
    fin: SessionView,
)
    requires
        v.wf(),
        contains_id(v.pool, id),
        !contains_id(v.remaining, id),
        finalize_post(v, now, r, fin),
    ensures
        v.step_error(actor, kind, map_id) is None ==> contains_id(v.after_step(map_id).pool, id)
            && !contains_id(v.after_step(map_id).remaining, id),
        contains_id(v.after_side(actor, map_id, side).pool, id) && !contains_id(
            v.after_side(actor, map_id, side).remaining,
            id,
        ),
        contains_id(v.expired().pool, id) && !contains_id(v.expired().remaining, id),
        contains_id(fin.pool, id) && !contains_id(fin.remaining, id),
{
    if v.step_error(actor, kind, map_id) is None {
        let i = index_of(v.remaining, map_id);
        assert(0 <= i < v.remaining.len() && v.remaining[i].id == map_id);
        lemma_remove_entry(v.remaining, i);
    }
}

/// A completed session has picked exactly as many maps as the series plays.
pub proof fn lemma_completed_map_count(v: SessionView)
    requires
        v.wf(),
        v.state == SessionState::Completed,
    ensures
        v.resolved.len() == crate::series::maps_played(v.series_type),
{
    crate::series::lemma_template_shape(v.series_type);
    assert(v.template.subrange(0, v.cursor as int) =~= v.template);
}

/// In a completed session every picked map has both starting sides set,
/// and they differ.
pub proof fn lemma_completed_sides(v: SessionView)
    requires
        v.wf(),
        v.state == SessionState::Completed,
    ensures
        forall|i: int|
            0 <= i < v.resolved.len() ==> {
                &&& (#[trigger] v.resolved[i]).start_side_team_one is Some
                &&& v.resolved[i].start_side_team_two is Some
                &&& v.resolved[i].start_side_team_one != v.resolved[i].start_side_team_two
            },
{
    assert forall|i: int| 0 <= i < v.resolved.len() implies {
        &&& (#[trigger] v.resolved[i]).start_side_team_one is Some
        &&& v.resolved[i].start_side_team_two is Some
        &&& v.resolved[i].start_side_team_one != v.resolved[i].start_side_team_two
    } by {
        assert(!sides_open(v.resolved[i]));
    }
}

/// Finalizing twice hands out the same configuration, and the second call
/// changes nothing.
pub proof fn lemma_finalize_idempotent(
    v0: SessionView,
    t1: u64,
    r1: Result<MatchConfig, SetupError>,
    v1: SessionView,
    t2: u64,
    r2: Result<MatchConfig, SetupError>,
    v2: SessionView,
)
    requires
        v0.wf(),
        v0.state == SessionState::Completed,
        finalize_post(v0, t1, r1, v1),
        finalize_post(v1, t2, r2, v2),
    ensures
        r1 is Ok,
        r2 is Ok,
        r2->Ok_0@ == r1->Ok_0@,
        v2 == v1,
{
}

/// A completed session refuses every further veto or pick with
/// `SeriesAlreadyCompleted`.
pub proof fn lemma_completed_rejects_steps(v: SessionView, actor: u64, kind: VoteType, map_id: u64)
    requires
        v.state == SessionState::Completed,
    ensures
        v.step_error(actor, kind, map_id) == Some(SetupError::SeriesAlreadyCompleted),
{
}

} // verus!
