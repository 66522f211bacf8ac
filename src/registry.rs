//! The registry of live sessions, one per series id.
use vstd::prelude::*;
use std::collections::HashMap;
use crate::series::{template_of, SeriesType, VoteType};
use crate::session::{
    distinct_ids, finalize_post, MapPoolEntry, MatchConfig, SessionView, SetupError,
    SetupSession, Side, Team,
};

verus! {

broadcast use vstd::std_specs::hash::group_hash_axioms;

/// The sessions of all series in setup, each reached by its series id.
/// Every operation on one session runs to its end before the next begins,
/// so each transition is applied whole or not at all.
pub struct SessionRegistry {
    sessions: HashMap<u64, SetupSession>,
}

impl View for SessionRegistry {
    type V = Map<u64, SessionView>;

    closed spec fn view(&self) -> Map<u64, SessionView> {
        Map::new(|k: u64| self.sessions@.contains_key(k), |k: u64| self.sessions@[k]@)
    }
}

impl SessionRegistry {
    /// Every session is well formed and filed under its own series id.
    pub open spec fn wf(&self) -> bool {
        forall|k: u64| #[trigger] self@.contains_key(k) ==> self@[k].wf() && self@[k].series_id == k
    }

    closed spec fn inner_wf(&self) -> bool {
        forall|k: u64| #[trigger]
            self.sessions@.contains_key(k) ==> self.sessions@[k]@.wf() && self.sessions@[k]@.series_id
                == k
    }

    proof fn lemma_wf(&self)
        ensures
            self.wf() <==> self.inner_wf(),
    {
        assert(self.wf() ==> self.inner_wf()) by {
            if self.wf() {
                assert forall|k: u64| #[trigger] self.sessions@.contains_key(k) implies self.sessions@[k]@.wf()
                    && self.sessions@[k]@.series_id == k by {
                    assert(self@.contains_key(k));
                }
            }
        }
    }

    /// An empty registry.
    pub fn new() -> (r: SessionRegistry)
        ensures
            r.wf(),
            r@ == Map::<u64, SessionView>::empty(),
    {
        let r = SessionRegistry { sessions: HashMap::new() };
        assert(r@ =~= Map::<u64, SessionView>::empty());
        r
    }

    /// Takes the session of `series_id` out of the map.
    fn take(&mut self, series_id: u64) -> (r: Option<SetupSession>)
        requires
            old(self).wf(),
        ensures
            r is None ==> !old(self)@.contains_key(series_id) && final(self)@ == old(self)@,
            r matches Some(s) ==> old(self)@.contains_key(series_id) && s@ == old(self)@[series_id]
                && final(self)@ == old(self)@.remove(series_id),
            final(self).wf(),
    {
        let r = self.sessions.remove(&series_id);
        proof {
            assert(self@ =~= old(self)@.remove(series_id));
            if r is None {
                assert(self@ =~= old(self)@);
            }
        }
        r
    }

    /// Files `s` under its series id.
    fn put(&mut self, s: SetupSession)
        requires
            old(self).wf(),
            s@.wf(),
        ensures
            final(self)@ == old(self)@.insert(s@.series_id, s@),
            final(self).wf(),
    {
        let ghost v = s@;
        let id = s.series_id();
        self.sessions.insert(id, s);
        assert(self@ =~= old(self)@.insert(v.series_id, v));
    }

    /// Opens a session for a newly scheduled series. Fails when the series
    /// already has one or when the pool is smaller than its template.
    pub fn start_setup(
        &mut self,
        series_id: u64,
        team_one: Team,
        team_two: Team,
        series_type: SeriesType,
        map_pool: Vec<MapPoolEntry>,
        created_at: u64,
        deadline: Option<u64>,
    ) -> (r: Result<(), SetupError>)
        requires
            old(self).wf(),
            distinct_ids(map_pool@),
        ensures
            final(self).wf(),
            old(self)@.contains_key(series_id) ==> r == Err::<(), SetupError>(
                SetupError::DuplicateSeries,
            ) && final(self)@ == old(self)@,
            !old(self)@.contains_key(series_id) && map_pool@.len() < template_of(series_type).len()
                ==> r == Err::<(), SetupError>(SetupError::InsufficientMapPool) && final(self)@
                == old(self)@,
            r is Ok <==> !old(self)@.contains_key(series_id) && map_pool@.len() >= template_of(
                series_type,
            ).len(),
            r is Ok ==> final(self)@.contains_key(series_id) && final(self)@ == old(self)@.insert(
                series_id,
                final(self)@[series_id],
            ) && {
                let s = final(self)@[series_id];
                &&& s.team_one == team_one
                &&& s.team_two == team_two
                &&& s.series_type == series_type
                &&& s.cursor == 0
                &&& s.pool == map_pool@
                &&& s.remaining == map_pool@
                &&& s.resolved.len() == 0
                &&& s.history.len() == 0
                &&& s.state == crate::session::SessionState::Pending
                &&& s.created_at == created_at
                &&& s.deadline == deadline
                &&& s.config is None
            },
    {
        proof {
            self.lemma_wf();
        }
        if self.sessions.contains_key(&series_id) {
            return Err(SetupError::DuplicateSeries);
        }
        match SetupSession::start_setup(
            series_id,
            team_one,
            team_two,
            series_type,
            map_pool,
            created_at,
            deadline,
        ) {
            Err(e) => Err(e),
            Ok(s) => {
                self.put(s);
                Ok(())
            },
        }
    }

    /// A veto or pick on the session of `series_id`; see
    /// [`SetupSession::submit_step`].
    pub fn submit_step(&mut self, series_id: u64, actor: u64, kind: VoteType, map_id: u64) -> (r:
        Result<(), SetupError>)
        requires
            old(self).wf(),
        ensures
            final(self).wf(),
            !old(self)@.contains_key(series_id) ==> r == Err::<(), SetupError>(
                SetupError::UnknownSeries,
            ) && final(self)@ == old(self)@,
            old(self)@.contains_key(series_id) ==> match old(self)@[series_id].step_error(
                actor,
                kind,
                map_id,
            ) {
                Some(e) => r == Err::<(), SetupError>(e) && final(self)@ == old(self)@,
                None => r is Ok && final(self)@ == old(self)@.insert(
                    series_id,
                    old(self)@[series_id].after_step(map_id),
                ),
            },
    {
        match self.take(series_id) {
            None => Err(SetupError::UnknownSeries),
            Some(mut s) => {
                let r = s.submit_step(actor, kind, map_id);
                self.put(s);
                proof {
                    if r is Err {
                        assert(self@ =~= old(self)@);
                    }
                }
                r
            },
        }
    }

    /// A side choice on the session of `series_id`; see
    /// [`SetupSession::submit_side_choice`].
    pub fn submit_side_choice(&mut self, series_id: u64, actor: u64, map_id: u64, side: Side) -> (r:
        Result<(), SetupError>)
        requires
            old(self).wf(),
        ensures
            final(self).wf(),
            !old(self)@.contains_key(series_id) ==> r == Err::<(), SetupError>(
                SetupError::UnknownSeries,
            ) && final(self)@ == old(self)@,
            old(self)@.contains_key(series_id) ==> match old(self)@[series_id].side_error(
                actor,
                map_id,
            ) {
                Some(e) => r == Err::<(), SetupError>(e) && final(self)@ == old(self)@,
                None => r is Ok && final(self)@ == old(self)@.insert(
                    series_id,
                    old(self)@[series_id].after_side(actor, map_id, side),
                ),
            },
    {
        match self.take(series_id) {
            None => Err(SetupError::UnknownSeries),
            Some(mut s) => {
                let r = s.submit_side_choice(actor, map_id, side);
                self.put(s);
                proof {
                    if r is Err {
                        assert(self@ =~= old(self)@);
                    }
                }
                r
            },
        }
    }

    /// The finalized configuration of the session of `series_id`; see
    /// [`SetupSession::finalize`].
    pub fn finalize(&mut self, series_id: u64, now: u64) -> (r: Result<MatchConfig, SetupError>)
        requires
            old(self).wf(),
        ensures
            final(self).wf(),
            !old(self)@.contains_key(series_id) ==> r == Err::<MatchConfig, SetupError>(
                SetupError::UnknownSeries,
            ) && final(self)@ == old(self)@,
            old(self)@.contains_key(series_id) ==> final(self)@.contains_key(series_id)
                && finalize_post(old(self)@[series_id], now, r, final(self)@[series_id])
                && final(self)@ == old(self)@.insert(series_id, final(self)@[series_id]),
    {
        match self.take(series_id) {
            None => Err(SetupError::UnknownSeries),
            Some(mut s) => {
                let r = s.finalize(now);
                self.put(s);
                r
            },
        }
    }

    /// Expires the session of `series_id` when its deadline has passed at
    /// `now` and it is not terminal. Returns whether it changed.
    pub fn expire_if_due(&mut self, series_id: u64, now: u64) -> (r: bool)
        requires
            old(self).wf(),
        ensures
            final(self).wf(),
            r == (old(self)@.contains_key(series_id) && !old(self)@[series_id].is_terminal()
                && old(self)@[series_id].is_due(now)),
            r ==> final(self)@ == old(self)@.insert(series_id, old(self)@[series_id].expired()),
            !r ==> final(self)@ == old(self)@,
    {
        match self.take(series_id) {
            None => false,
            Some(mut s) => {
                let r = s.expire_if_due(now);
                self.put(s);
                proof {
                    if !r {
                        assert(self@ =~= old(self)@);
                    }
                }
                r
            },
        }
    }

    /// The session of `series_id`, if there is one.
    pub fn get(&self, series_id: u64) -> (r: Option<&SetupSession>)
        requires
            self.wf(),
        ensures
            r is None <==> !self@.contains_key(series_id),
            r matches Some(s) ==> s@ == self@[series_id],
    {
        self.sessions.get(&series_id)
    }

    /// Removes and hands back the session of `series_id` once it is
    /// terminal; a live session stays.
    pub fn evict(&mut self, series_id: u64) -> (r: Option<SetupSession>)
        requires
            old(self).wf(),
        ensures
            final(self).wf(),
            r is Some <==> old(self)@.contains_key(series_id) && old(self)@[series_id].is_terminal(),
            r matches Some(s) ==> s@ == old(self)@[series_id] && final(self)@ == old(self)@.remove(
                series_id,
            ),
            r is None ==> final(self)@ == old(self)@,
    {
        match self.take(series_id) {
            None => None,
            Some(s) => {
                let st = s.state();
                match st {
                    crate::session::SessionState::Completed
                    | crate::session::SessionState::Expired => Some(s),
                    _ => {
                        self.put(s);
                        proof {
                            assert(self@ =~= old(self)@);
                        }
                        None
                    },
                }
            },
        }
    }
}

} // verus!
