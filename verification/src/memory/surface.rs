//! Surfaces of the in-memory store.

use vstd::prelude::*;

use super::session::live_session;
use super::{
    drop_where, lemma_pos_of, lemma_unique_push, pos_of, surf_keys, MemoryBackend, StoreView,
    SurfaceRecord, SessionRecord,
};
use crate::entities::{NewSurface, SessionId, Surface, SurfaceId, SurfaceStatus};
use crate::error::{OrchestratorError, Result};

verus! {

/// The live (not soft-deleted) surface with the given id.
pub open spec fn live_surface(s: Seq<SurfaceRecord>, id: Seq<char>) -> Option<Surface> {
    match pos_of(surf_keys(s), id) {
        Some(i) => if s[i].deleted {
            None
        } else {
            Some(s[i].surface)
        },
        None => None,
    }
}

/// Insert `rec`, replacing a surface with the same id.
pub open spec fn surf_upsert(s: Seq<SurfaceRecord>, rec: SurfaceRecord) -> Seq<SurfaceRecord> {
    match pos_of(surf_keys(s), rec.surface.id@) {
        Some(i) => s.update(i, rec),
        None => s.push(rec),
    }
}

/// `r` is a live surface of session `sid` bound to placement `p`.
pub open spec fn surface_placed(r: SurfaceRecord, sid: Seq<char>, p: Seq<char>) -> bool {
    &&& !r.deleted
    &&& r.surface.session_id@ == sid
    &&& r.surface.placement matches Some(x) && x@ == p
}

/// Some live surface of session `sid` is bound to placement `p`.
pub open spec fn placement_taken(s: Seq<SurfaceRecord>, sid: Seq<char>, p: Seq<char>) -> bool {
    exists|t: int| 0 <= t < s.len() && #[trigger] surface_placed(s[t], sid, p)
}

/// `x` is the first surface of `s` that `surface_placed` selects.
pub open spec fn first_placed(s: Seq<SurfaceRecord>, sid: Seq<char>, p: Seq<char>, x: Surface) -> bool {
    exists|t: int|
        0 <= t < s.len() && #[trigger] surface_placed(s[t], sid, p) && s[t].surface == x && forall|
            u: int,
        |
            0 <= u < t ==> !surface_placed(#[trigger] s[u], sid, p)
}

/// `s` is the surface a draft describes: its own id or a fresh one, pending,
/// with no recorded status.
pub open spec fn surface_from_draft(s: Surface, draft: NewSurface) -> bool {
    &&& match draft.id {
        Some(i) => s.id == i,
        None => crate::entities::is_uuid_text(s.id@),
    }
    &&& s.session_id == draft.session_id
    &&& s.kind == draft.kind
    &&& s.cwd == draft.cwd
    &&& s.status == SurfaceStatus::Pending
    &&& s.placement == draft.placement
    &&& s.last_status is None
}

/// A surface can be resumed: it is live and so is its session.
pub open spec fn resumable(r: SurfaceRecord, sessions: Seq<SessionRecord>) -> bool {
    !r.deleted && live_session(sessions, r.surface.session_id@) is Some
}

/// `after` is `before` with every resumable surface that had no placement
/// given a fresh one (36 characters); nothing else changes.
pub open spec fn placements_filled(
    before: Seq<SurfaceRecord>,
    after: Seq<SurfaceRecord>,
    sessions: Seq<SessionRecord>,
) -> bool {
    &&& after.len() == before.len()
    &&& forall|t: int|
        0 <= t < before.len() ==> if resumable(before[t], sessions) && before[t].surface.placement is None {
            &&& (#[trigger] after[t]).surface.placement matches Some(p) && crate::entities::is_uuid_text(p@)
            &&& after[t] == SurfaceRecord {
                surface: Surface { placement: after[t].surface.placement, ..before[t].surface },
                ..before[t]
            }
        } else {
            after[t] == before[t]
        }
}

/// The surfaces a resume listing returns, in store order.
pub open spec fn resumable_listed(s: Seq<SurfaceRecord>, sessions: Seq<SessionRecord>) -> Seq<Surface> {
    drop_where(s, |r: SurfaceRecord| !resumable(r, sessions)).map_values(|r: SurfaceRecord| r.surface)
}

impl MemoryBackend {
    /// Record a surface. A placement already held by a live surface of the
    /// same session is refused.
    pub fn create_surface(&mut self, draft: NewSurface) -> (r: Result<Surface>)
        requires
            old(self)@.wf(),
        ensures
            final(self)@.wf(),
            ({
                let clash = match draft.placement {
                    Some(p) => placement_taken(old(self)@.surfaces, draft.session_id@, p@),
                    None => false,
                };
                &&& clash ==> final(self)@ == old(self)@ && (r matches Err(
                    OrchestratorError::SurfaceConflict(e),
                ) && draft.placement matches Some(p) && e@ == p@)
                &&& !clash ==> (r matches Ok(s) && surface_from_draft(s, draft) && final(self)@ == (
                StoreView {
                    surfaces: surf_upsert(old(self)@.surfaces, SurfaceRecord { surface: s, deleted: false }),
                    ..old(self)@
                }))
            }),
    {
        match &draft.placement {
            Some(p) => {
                let mut t: usize = 0;
                while t < self.surfaces.len()
                    invariant
                        self@ == old(self)@,
                        old(self)@.wf(),
                        draft.placement matches Some(q) && q@ == p@,
                        t <= self.surfaces@.len(),
                        forall|u: int|
                            0 <= u < t ==> !surface_placed(
                                #[trigger] self.surfaces@[u],
                                draft.session_id@,
                                p@,
                            ),
                    decreases self.surfaces.len() - t,
                {
                    let rec = &self.surfaces[t];
                    let same_place = match &rec.surface.placement {
                        Some(x) => crate::text::str_equal(x.as_str(), p.as_str()),
                        None => false,
                    };
                    if !rec.deleted && rec.surface.session_id.same(&draft.session_id) && same_place {
                        assert(surface_placed(self.surfaces@[t as int], draft.session_id@, p@));
                        return Err(OrchestratorError::SurfaceConflict(p.clone()));
                    }
                    t = t + 1;
                }
            },
            None => {},
        }
        let surface = Surface {
            id: match draft.id {
                Some(i) => i,
                None => SurfaceId::mint(),
            },
            session_id: draft.session_id,
            kind: draft.kind,
            cwd: draft.cwd,
            status: SurfaceStatus::Pending,
            placement: draft.placement,
            last_status: None,
        };
        let out = surface.duplicate();
        let rec = SurfaceRecord { surface, deleted: false };
        let ghost old_surfaces = self.surfaces@;
        match self.find_surface(rec.surface.id.as_str()) {
            Some(k) => {
                self.surfaces.set(k, rec);
                proof {
                    lemma_pos_of(surf_keys(old_surfaces), out.id@);
                    assert(surf_keys(self.surfaces@) =~= surf_keys(old_surfaces));
                }
            },
            None => {
                self.surfaces.push(rec);
                proof {
                    assert(surf_keys(self.surfaces@) =~= surf_keys(old_surfaces).push(out.id@));
                    lemma_unique_push(surf_keys(old_surfaces), out.id@);
                }
            },
        }
        Ok(out)
    }

    /// The live surface with the given id.
    pub fn get_surface(&self, id: &SurfaceId) -> (r: Result<Option<Surface>>)
        ensures
            r == Ok::<Option<Surface>, OrchestratorError>(live_surface(self@.surfaces, id@)),
    {
        match self.find_surface(id.as_str()) {
            Some(i) => {
                if self.surfaces[i].deleted {
                    Ok(None)
                } else {
                    Ok(Some(self.surfaces[i].surface.duplicate()))
                }
            },
            None => Ok(None),
        }
    }

    /// The first live surface of a session bound to `placement`.
    pub fn find_session_surface_by_placement(&self, session_id: &SessionId, placement: &str) -> (r:
        Result<Option<Surface>>)
        ensures
            match r {
                Ok(Some(x)) => first_placed(self@.surfaces, session_id@, placement@, x),
                Ok(None) => !placement_taken(self@.surfaces, session_id@, placement@),
                Err(_) => false,
            },
    {
        let mut t: usize = 0;
        while t < self.surfaces.len()
            invariant
                t <= self.surfaces@.len(),
                forall|u: int|
                    0 <= u < t ==> !surface_placed(#[trigger] self.surfaces@[u], session_id@, placement@),
            decreases self.surfaces.len() - t,
        {
            let rec = &self.surfaces[t];
            let same_place = match &rec.surface.placement {
                Some(x) => crate::text::str_equal(x.as_str(), placement),
                None => false,
            };
            if !rec.deleted && rec.surface.session_id.same(session_id) && same_place {
                let x = rec.surface.duplicate();
                assert(surface_placed(self.surfaces@[t as int], session_id@, placement@));
                return Ok(Some(x));
            }
            t = t + 1;
        }
        Ok(None)
    }

    /// Every surface that can be resumed (live, of a live session), in store
    /// order. A surface without a placement is given a fresh one first, so
    /// that resume can bind by placement.
    pub fn list_resumable_surfaces(&mut self) -> (r: Result<Vec<Surface>>)
        requires
            old(self)@.wf(),
        ensures
            final(self)@.wf(),
            placements_filled(old(self)@.surfaces, final(self)@.surfaces, old(self)@.sessions),
            final(self)@ == (StoreView { surfaces: final(self)@.surfaces, ..old(self)@ }),
            match r {
                Ok(v) => v@ == resumable_listed(final(self)@.surfaces, old(self)@.sessions),
                Err(_) => false,
            },
    {
        let ghost pre = self@;
        let ghost old_s = self.surfaces@;
        let ghost sessions = self.sessions@;
        let ghost notres = |r: SurfaceRecord| !resumable(r, sessions);
        let mut out: Vec<Surface> = Vec::new();
        let mut t: usize = 0;
        while t < self.surfaces.len()
            invariant
                self@ == (StoreView { surfaces: self@.surfaces, ..pre }),
                pre.surfaces == old_s,
                pre.sessions == sessions,
                notres == (|r: SurfaceRecord| !resumable(r, sessions)),
                t <= old_s.len(),
                self.surfaces@.len() == old_s.len(),
                surf_keys(self.surfaces@) == surf_keys(old_s),
                placements_filled(old_s.take(t as int), self.surfaces@.take(t as int), sessions),
                forall|u: int| t <= u < old_s.len() ==> #[trigger] self.surfaces@[u] == old_s[u],
                out@ == drop_where(self.surfaces@.take(t as int), notres).map_values(
                    |r: SurfaceRecord| r.surface,
                ),
            decreases old_s.len() - t,
        {
            let live_session_here = match self.find_session(self.surfaces[t].surface.session_id.as_str()) {
                Some(k) => !self.sessions[k].deleted,
                None => false,
            };
            let ghost before = self.surfaces@;
            if !self.surfaces[t].deleted && live_session_here {
                if self.surfaces[t].surface.placement.is_none() {
                    let rec = SurfaceRecord {
                        surface: Surface {
                            placement: Some(crate::entities::new_uuid_string()),
                            ..self.surfaces[t].surface.duplicate()
                        },
                        deleted: self.surfaces[t].deleted,
                    };
                    self.surfaces.set(t, rec);
                    proof {
                        assert(surf_keys(self.surfaces@) =~= surf_keys(before));
                    }
                }
                out.push(self.surfaces[t].surface.duplicate());
            }
            proof {
                let cur = self.surfaces@;
                assert(cur.take(t as int) =~= before.take(t as int));
                assert(cur.take(t + 1).drop_last() =~= cur.take(t as int));
                assert(cur.take(t + 1).last() == cur[t as int]);
                assert(resumable(cur[t as int], sessions) == resumable(old_s[t as int], sessions));
                assert(out@ =~= drop_where(cur.take(t + 1), notres).map_values(
                    |r: SurfaceRecord| r.surface,
                ));
                let a = old_s.take(t + 1);
                let b = cur.take(t + 1);
                assert forall|u: int| 0 <= u < a.len() implies (if resumable(a[u], sessions)
                    && a[u].surface.placement is None {
                    &&& (#[trigger] b[u]).surface.placement matches Some(p) && crate::entities::is_uuid_text(p@)
                    &&& b[u] == SurfaceRecord {
                        surface: Surface { placement: b[u].surface.placement, ..a[u].surface },
                        ..a[u]
                    }
                } else {
                    b[u] == a[u]
                }) by {
                    if u < t {
                        assert(a[u] == old_s.take(t as int)[u]);
                        assert(b[u] == cur.take(t as int)[u]);
                    }
                }
            }
            t = t + 1;
        }
        proof {
            assert(old_s.take(t as int) =~= old_s);
            assert(self.surfaces@.take(t as int) =~= self.surfaces@);
        }
        Ok(out)
    }

    /// Record the latest runtime status of a surface (a missing surface is
    /// ignored).
    pub fn update_surface_status(&mut self, id: &SurfaceId, status: &str) -> (r: Result<()>)
        requires
            old(self)@.wf(),
        ensures
            r is Ok,
            final(self)@.wf(),
            match pos_of(surf_keys(old(self)@.surfaces), id@) {
                Some(i) => {
                    &&& final(self)@.surfaces[i].surface.last_status matches Some(x) && x@ == status@
                    &&& final(self)@ == (StoreView {
                        surfaces: old(self)@.surfaces.update(
                            i,
                            SurfaceRecord {
                                surface: Surface {
                                    last_status: final(self)@.surfaces[i].surface.last_status,
                                    ..old(self)@.surfaces[i].surface
                                },
                                ..old(self)@.surfaces[i]
                            },
                        ),
                        ..old(self)@
                    })
                },
                None => final(self)@ == old(self)@,
            },
    {
        match self.find_surface(id.as_str()) {
            Some(i) => {
                let ghost old_surfaces = self.surfaces@;
                let rec = SurfaceRecord {
                    surface: Surface {
                        last_status: Some(status.to_owned()),
                        ..self.surfaces[i].surface.duplicate()
                    },
                    deleted: self.surfaces[i].deleted,
                };
                self.surfaces.set(i, rec);
                proof {
                    lemma_pos_of(surf_keys(old_surfaces), id@);
                    assert(surf_keys(self.surfaces@) =~= surf_keys(old_surfaces));
                }
            },
            None => {},
        }
        Ok(())
    }

    /// Soft-delete a surface (a missing surface is ignored).
    pub fn soft_delete_surface(&mut self, id: &SurfaceId) -> (r: Result<()>)
        requires
            old(self)@.wf(),
        ensures
            r is Ok,
            final(self)@.wf(),
            match pos_of(surf_keys(old(self)@.surfaces), id@) {
                Some(i) => final(self)@ == (StoreView {
                    surfaces: old(self)@.surfaces.update(
                        i,
                        SurfaceRecord { deleted: true, ..old(self)@.surfaces[i] },
                    ),
                    ..old(self)@
                }),
                None => final(self)@ == old(self)@,
            },
    {
        match self.find_surface(id.as_str()) {
            Some(i) => {
                let ghost old_surfaces = self.surfaces@;
                let rec = SurfaceRecord { surface: self.surfaces[i].surface.duplicate(), deleted: true };
                self.surfaces.set(i, rec);
                proof {
                    lemma_pos_of(surf_keys(old_surfaces), id@);
                    assert(surf_keys(self.surfaces@) =~= surf_keys(old_surfaces));
                }
            },
            None => {},
        }
        Ok(())
    }

    /// Check that a surface may be attached to a session: a known surface of
    /// another session is a conflict; an unknown one is accepted.
    pub fn add_surface_to_session(&self, session_id: &SessionId, surface_id: &SurfaceId) -> (r:
        Result<()>)
        ensures
            match pos_of(surf_keys(self@.surfaces), surface_id@) {
                Some(i) => if self@.surfaces[i].surface.session_id@ != session_id@ {
                    r matches Err(OrchestratorError::SurfaceConflict(e)) && e@ == surface_id@
                } else {
                    r is Ok
                },
                None => r is Ok,
            },
    {
        match self.find_surface(surface_id.as_str()) {
            Some(i) => {
                if !self.surfaces[i].surface.session_id.same(session_id) {
                    return Err(OrchestratorError::SurfaceConflict(surface_id.as_str().to_owned()));
                }
                Ok(())
            },
            None => Ok(()),
        }
    }

    /// Detach a surface from its session: the surface is soft-deleted.
    pub fn remove_surface_from_session(&mut self, session_id: &SessionId, surface_id: &SurfaceId) -> (r:
        Result<()>)
        requires
            old(self)@.wf(),
        ensures
            r is Ok,
            final(self)@.wf(),
            match pos_of(surf_keys(old(self)@.surfaces), surface_id@) {
                Some(i) => final(self)@ == (StoreView {
                    surfaces: old(self)@.surfaces.update(
                        i,
                        SurfaceRecord { deleted: true, ..old(self)@.surfaces[i] },
                    ),
                    ..old(self)@
                }),
                None => final(self)@ == old(self)@,
            },
    {
        self.soft_delete_surface(surface_id)
    }
}

} // verus!
