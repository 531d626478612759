//! Sessions of the in-memory store, and the project operations that reach
//! into sessions and surfaces (archive and hard delete).

use vstd::prelude::*;

use super::{
    drop_where, lemma_drop_where, lemma_keep_unflagged_is_drop_where, lemma_pos_of,
    lemma_unique_push, lemma_unique_remove, live_project, pos_of, proj_keys, remove_flagged,
    sess_keys, session_in_project, session_live_in_project, sessions_after_project_archive,
    surf_keys, surfaces_after_project_archive, unique, MemoryBackend, ProjectRecord,
    SessionRecord, StoreView, SurfaceRecord,
};
use crate::entities::{NewSession, ProjectId, Session, SessionId, SessionStatus, TitleSource};
use crate::error::{OrchestratorError, Result};
use crate::text::{decimal, push_decimal};

verus! {

/// The live (not archived) session with the given id.
pub open spec fn live_session(s: Seq<SessionRecord>, id: Seq<char>) -> Option<Session> {
    match pos_of(sess_keys(s), id) {
        Some(i) => if s[i].deleted {
            None
        } else {
            Some(s[i].session)
        },
        None => None,
    }
}

/// Insert `rec`, replacing a session with the same id.
pub open spec fn sess_upsert(s: Seq<SessionRecord>, rec: SessionRecord) -> Seq<SessionRecord> {
    match pos_of(sess_keys(s), rec.session.id@) {
        Some(i) => s.update(i, rec),
        None => s.push(rec),
    }
}

/// `s` is the session a draft and a launch spec describe: the Unfiled project
/// and an empty title when the draft gives none, at the top of the order,
/// unpinned and active, under a fresh id.
pub open spec fn session_from_draft(s: Session, draft: NewSession, spec: Option<(u32, String)>) -> bool {
    &&& crate::entities::is_uuid_text(s.id@)
    &&& s.project_id@ == match draft.project_id {
        Some(p) => p@,
        None => ProjectId::UNFILED@,
    }
    &&& s.title@ == match draft.title {
        Some(t) => t@,
        None => Seq::<char>::empty(),
    }
    &&& s.title_source == draft.title_source
    &&& s.spec_version == match spec {
        Some(x) => Some(x.0),
        None => None::<u32>,
    }
    &&& s.spec_json == match spec {
        Some(x) => Some(x.1),
        None => None::<String>,
    }
    &&& s.sort_order == 0
    &&& !s.pinned
    &&& s.status == SessionStatus::Active
}

/// `x` is a whole number of seconds written in decimal.
pub open spec fn is_epoch_secs(x: Seq<char>) -> bool {
    exists|t: u64| #[trigger] decimal(t as nat) == x
}

/// The sessions a listing selects: live ones, of the given project if any.
pub open spec fn sess_selected(r: SessionRecord, pid: Option<Seq<char>>) -> bool {
    !r.deleted && match pid {
        Some(p) => r.session.project_id@ == p,
        None => true,
    }
}

/// The sessions a listing returns, in store order.
pub open spec fn sessions_listed(s: Seq<SessionRecord>, pid: Option<Seq<char>>) -> Seq<Session> {
    drop_where(s, |r: SessionRecord| !sess_selected(r, pid)).map_values(|r: SessionRecord| r.session)
}

/// The surfaces after soft-deleting every surface of session `sid`.
pub open spec fn surfaces_of_session_archived(s: Seq<SurfaceRecord>, sid: Seq<char>) -> Seq<SurfaceRecord> {
    s.map_values(
        |r: SurfaceRecord|
            if r.surface.session_id@ == sid {
                SurfaceRecord { deleted: true, ..r }
            } else {
                r
            },
    )
}

/// A surface belongs to session `sid`.
pub open spec fn of_session(sid: Seq<char>) -> spec_fn(SurfaceRecord) -> bool {
    |r: SurfaceRecord| r.surface.session_id@ == sid
}

/// A surface belongs to a session (live or archived) of project `pid`.
pub open spec fn of_project_session(sessions: Seq<SessionRecord>, pid: Seq<char>) -> spec_fn(
    SurfaceRecord,
) -> bool {
    |r: SurfaceRecord| session_in_project(sessions, r.surface.session_id@, pid)
}

/// A session belongs to project `pid`.
pub open spec fn of_project(pid: Seq<char>) -> spec_fn(SessionRecord) -> bool {
    |r: SessionRecord| r.session.project_id@ == pid
}

proof fn lemma_surface_keys_dropped(s: Seq<SurfaceRecord>, p: spec_fn(SurfaceRecord) -> bool)
    requires
        unique(surf_keys(s)),
    ensures
        unique(surf_keys(drop_where(s, p))),
{
    let key = |r: SurfaceRecord| r.surface.id@;
    assert(s.map_values(key) =~= surf_keys(s));
    lemma_drop_where(s, p, key);
    assert(drop_where(s, p).map_values(key) =~= surf_keys(drop_where(s, p)));
}

proof fn lemma_session_keys_dropped(s: Seq<SessionRecord>, p: spec_fn(SessionRecord) -> bool)
    requires
        unique(sess_keys(s)),
    ensures
        unique(sess_keys(drop_where(s, p))),
{
    let key = |r: SessionRecord| r.session.id@;
    assert(s.map_values(key) =~= sess_keys(s));
    lemma_drop_where(s, p, key);
    assert(drop_where(s, p).map_values(key) =~= sess_keys(drop_where(s, p)));
}

impl MemoryBackend {
    /// Record a session made from a draft and a pre-resolved launch spec
    /// (version, json) at `secs` seconds since the epoch.
    pub fn create_session_at(&mut self, draft: NewSession, spec: Option<(u32, String)>, secs: u64) -> (r:
        Result<Session>)
        requires
            old(self)@.wf(),
        ensures
            final(self)@.wf(),
            match r {
                Ok(s) => {
                    &&& session_from_draft(s, draft, spec)
                    &&& s.created_at@ == decimal(secs as nat)
                    &&& final(self)@ == (StoreView {
                        sessions: sess_upsert(
                            old(self)@.sessions,
                            SessionRecord { session: s, deleted: false, layout_json: None },
                        ),
                        ..old(self)@
                    })
                },
                Err(_) => false,
            },
    {
        let (spec_version, spec_json) = match spec {
            Some((version, json)) => (Some(version), Some(json)),
            None => (None, None),
        };
        let mut created_at = String::new();
        push_decimal(&mut created_at, secs);
        proof {
            assert(created_at@ =~= decimal(secs as nat));
        }
        let session = Session {
            id: SessionId::mint(),
            project_id: match draft.project_id {
                Some(p) => p,
                None => ProjectId::unfiled(),
            },
            title: match draft.title {
                Some(t) => t,
                None => String::new(),
            },
            title_source: draft.title_source,
            created_at,
            spec_version,
            spec_json,
            sort_order: 0,
            pinned: false,
            status: SessionStatus::Active,
        };
        let out = session.duplicate();
        let rec = SessionRecord { session, deleted: false, layout_json: None };
        let ghost old_sessions = self.sessions@;
        match self.find_session(rec.session.id.as_str()) {
            Some(k) => {
                self.sessions.set(k, rec);
                proof {
                    lemma_pos_of(sess_keys(old_sessions), out.id@);
                    assert(sess_keys(self.sessions@) =~= sess_keys(old_sessions));
                }
            },
            None => {
                self.sessions.push(rec);
                proof {
                    assert(sess_keys(self.sessions@) =~= sess_keys(old_sessions).push(out.id@));
                    lemma_unique_push(sess_keys(old_sessions), out.id@);
                }
            },
        }
        Ok(out)
    }

    /// Record a session made from a draft and a pre-resolved launch spec
    /// (version, json), stamped with the current time in epoch seconds.
    pub fn create_session_inner(&mut self, draft: NewSession, spec: Option<(u32, String)>) -> (r:
        Result<Session>)
        requires
            old(self)@.wf(),
        ensures
            final(self)@.wf(),
            match r {
                Ok(s) => {
                    &&& session_from_draft(s, draft, spec)
                    &&& is_epoch_secs(s.created_at@)
                    &&& final(self)@ == (StoreView {
                        sessions: sess_upsert(
                            old(self)@.sessions,
                            SessionRecord { session: s, deleted: false, layout_json: None },
                        ),
                        ..old(self)@
                    })
                },
                Err(_) => false,
            },
    {
        let secs = crate::clock::now_unix_secs();
        let r = self.create_session_at(draft, spec, secs);
        assert(r matches Ok(s) ==> decimal(secs as nat) == s.created_at@);
        r
    }
}

impl MemoryBackend {
    /// Retitle a live session; the title is stored as given and marked as the
    /// user's own.
    pub fn rename_session(&mut self, id: &SessionId, title: &str) -> (r: Result<()>)
        requires
            old(self)@.wf(),
        ensures
            final(self)@.wf(),
            match live_session(old(self)@.sessions, id@) {
                Some(s) => {
                    let i = pos_of(sess_keys(old(self)@.sessions), id@)->0;
                    &&& r is Ok
                    &&& final(self)@.sessions[i].session.title@ == title@
                    &&& final(self)@ == (StoreView {
                        sessions: old(self)@.sessions.update(
                            i,
                            SessionRecord {
                                session: Session {
                                    title: final(self)@.sessions[i].session.title,
                                    title_source: TitleSource::Custom,
                                    ..s
                                },
                                ..old(self)@.sessions[i]
                            },
                        ),
                        ..old(self)@
                    })
                },
                None => final(self)@ == old(self)@ && (r matches Err(
                    OrchestratorError::SessionNotFound(e),
                ) && e@ == id@),
            },
    {
        match self.find_session(id.as_str()) {
            Some(i) => {
                if self.sessions[i].deleted {
                    return Err(OrchestratorError::SessionNotFound(id.as_str().to_owned()));
                }
                let ghost old_sessions = self.sessions@;
                let old_rec = &self.sessions[i];
                let rec = SessionRecord {
                    session: Session {
                        title: title.to_owned(),
                        title_source: TitleSource::Custom,
                        ..old_rec.session.duplicate()
                    },
                    deleted: old_rec.deleted,
                    layout_json: crate::entities::project::copy_opt_string(&old_rec.layout_json),
                };
                self.sessions.set(i, rec);
                proof {
                    lemma_pos_of(sess_keys(old_sessions), id@);
                    assert(sess_keys(self.sessions@) =~= sess_keys(old_sessions));
                }
                Ok(())
            },
            None => Err(OrchestratorError::SessionNotFound(id.as_str().to_owned())),
        }
    }

    /// Live sessions, of one project when given, in store order.
    pub fn list_sessions(&self, project_id: Option<&ProjectId>) -> (r: Result<Vec<Session>>)
        ensures
            match r {
                Ok(v) => v@ == sessions_listed(
                    self@.sessions,
                    match project_id {
                        Some(p) => Some(p@),
                        None => None,
                    },
                ),
                Err(_) => false,
            },
            self@.wf() ==> match r {
                Ok(v) => forall|t: int|
                    0 <= t < v@.len() ==> live_session(self@.sessions, (#[trigger] v@[t]).id@) == Some(v@[t])
                        && match project_id {
                        Some(p) => v@[t].project_id@ == p@,
                        None => true,
                    },
                Err(_) => true,
            },
    {
        let ghost pid = match project_id {
            Some(p) => Some(p@),
            None => None,
        };
        let ghost notsel = |r: SessionRecord| !sess_selected(r, pid);
        let ghost s = self.sessions@;
        let mut out: Vec<Session> = Vec::new();
        let mut i: usize = 0;
        while i < self.sessions.len()
            invariant
                s == self.sessions@,
                pid == match project_id {
                    Some(p) => Some(p@),
                    None => None,
                },
                notsel == (|r: SessionRecord| !sess_selected(r, pid)),
                i <= s.len(),
                out@ == drop_where(s.take(i as int), notsel).map_values(|r: SessionRecord| r.session),
            decreases s.len() - i,
        {
            let rec = &self.sessions[i];
            let selected = !rec.deleted && match project_id {
                Some(p) => rec.session.project_id.same(p),
                None => true,
            };
            proof {
                assert(s.take(i + 1).drop_last() =~= s.take(i as int));
                assert(s.take(i + 1).last() == s[i as int]);
            }
            if selected {
                out.push(rec.session.duplicate());
                proof {
                    assert(out@ =~= drop_where(s.take(i + 1), notsel).map_values(
                        |r: SessionRecord| r.session,
                    ));
                }
            }
            i = i + 1;
        }
        proof {
            assert(s.take(i as int) =~= s);
            if self@.wf() {
                super::properties::law_listed_sessions_are_live(s, pid);
            }
        }
        Ok(out)
    }

    /// The live session with the given id.
    pub fn get_session(&self, id: &SessionId) -> (r: Result<Option<Session>>)
        ensures
            r == Ok::<Option<Session>, OrchestratorError>(live_session(self@.sessions, id@)),
    {
        match self.find_session(id.as_str()) {
            Some(i) => {
                if self.sessions[i].deleted {
                    Ok(None)
                } else {
                    Ok(Some(self.sessions[i].session.duplicate()))
                }
            },
            None => Ok(None),
        }
    }

    /// Soft-delete every surface of session `sid`.
    fn archive_session_surfaces(&mut self, sid: &SessionId)
        requires
            old(self)@.wf(),
        ensures
            final(self)@.wf(),
            final(self)@ == (StoreView {
                surfaces: surfaces_of_session_archived(old(self)@.surfaces, sid@),
                ..old(self)@
            }),
    {
        let ghost pre = self@;
        let ghost old_s = self.surfaces@;
        let mut t: usize = 0;
        while t < self.surfaces.len()
            invariant
                self@ == (StoreView { surfaces: self@.surfaces, ..pre }),
                pre.surfaces == old_s,
                t <= old_s.len(),
                self.surfaces@.len() == old_s.len(),
                surf_keys(self.surfaces@) == surf_keys(old_s),
                forall|u: int|
                    0 <= u < t ==> #[trigger] self.surfaces@[u] == surfaces_of_session_archived(
                        old_s,
                        sid@,
                    )[u],
                forall|u: int| t <= u < old_s.len() ==> #[trigger] self.surfaces@[u] == old_s[u],
            decreases old_s.len() - t,
        {
            if self.surfaces[t].surface.session_id.same(sid) {
                let rec = SurfaceRecord { surface: self.surfaces[t].surface.duplicate(), deleted: true };
                let ghost before = self.surfaces@;
                self.surfaces.set(t, rec);
                proof {
                    assert(surf_keys(self.surfaces@) =~= surf_keys(before));
                }
            }
            t = t + 1;
        }
        proof {
            assert(self.surfaces@ =~= surfaces_of_session_archived(old_s, sid@));
        }
    }

    /// Archive a live session and soft-delete its surfaces.
    pub fn archive_session(&mut self, id: &SessionId) -> (r: Result<()>)
        requires
            old(self)@.wf(),
        ensures
            final(self)@.wf(),
            match live_session(old(self)@.sessions, id@) {
                Some(s) => {
                    let i = pos_of(sess_keys(old(self)@.sessions), id@)->0;
                    &&& r is Ok
                    &&& final(self)@ == (StoreView {
                        sessions: old(self)@.sessions.update(
                            i,
                            SessionRecord { deleted: true, ..old(self)@.sessions[i] },
                        ),
                        surfaces: surfaces_of_session_archived(old(self)@.surfaces, id@),
                        ..old(self)@
                    })
                },
                None => final(self)@ == old(self)@ && (r matches Err(
                    OrchestratorError::SessionNotFound(e),
                ) && e@ == id@),
            },
    {
        let i = match self.find_session(id.as_str()) {
            Some(i) => i,
            None => {
                return Err(OrchestratorError::SessionNotFound(id.as_str().to_owned()));
            },
        };
        if self.sessions[i].deleted {
            return Err(OrchestratorError::SessionNotFound(id.as_str().to_owned()));
        }
        let ghost old_sessions = self.sessions@;
        let rec = SessionRecord {
            session: self.sessions[i].session.duplicate(),
            deleted: true,
            layout_json: crate::entities::project::copy_opt_string(&self.sessions[i].layout_json),
        };
        self.sessions.set(i, rec);
        proof {
            lemma_pos_of(sess_keys(old_sessions), id@);
            assert(sess_keys(self.sessions@) =~= sess_keys(old_sessions));
        }
        self.archive_session_surfaces(id);
        Ok(())
    }

    /// Delete an archived session for good, with its surfaces.
    pub fn hard_delete_session(&mut self, id: &SessionId) -> (r: Result<()>)
        requires
            old(self)@.wf(),
        ensures
            final(self)@.wf(),
            match pos_of(sess_keys(old(self)@.sessions), id@) {
                None => final(self)@ == old(self)@ && (r matches Err(
                    OrchestratorError::SessionNotFound(e),
                ) && e@ == id@),
                Some(i) => if !old(self)@.sessions[i].deleted {
                    final(self)@ == old(self)@ && r == Err::<(), OrchestratorError>(
                        OrchestratorError::SessionNotArchived,
                    )
                } else {
                    &&& r is Ok
                    &&& final(self)@ == (StoreView {
                        sessions: old(self)@.sessions.remove(i),
                        surfaces: drop_where(old(self)@.surfaces, of_session(id@)),
                        ..old(self)@
                    })
                },
            },
    {
        let i = match self.find_session(id.as_str()) {
            Some(i) => i,
            None => {
                return Err(OrchestratorError::SessionNotFound(id.as_str().to_owned()));
            },
        };
        if !self.sessions[i].deleted {
            return Err(OrchestratorError::SessionNotArchived);
        }
        let ghost old_surfaces = self.surfaces@;
        let ghost old_sessions = self.sessions@;
        let mut flags: Vec<bool> = Vec::new();
        let mut t: usize = 0;
        while t < self.surfaces.len()
            invariant
                old_surfaces == self.surfaces@,
                t <= old_surfaces.len(),
                flags@.len() == t,
                forall|u: int| 0 <= u < t ==> flags@[u] == of_session(id@)(#[trigger] old_surfaces[u]),
            decreases old_surfaces.len() - t,
        {
            flags.push(self.surfaces[t].surface.session_id.same(id));
            t = t + 1;
        }
        remove_flagged(&mut self.surfaces, &flags);
        proof {
            lemma_keep_unflagged_is_drop_where(old_surfaces, flags@, of_session(id@));
            lemma_surface_keys_dropped(old_surfaces, of_session(id@));
        }
        self.sessions.remove(i);
        proof {
            assert(sess_keys(self.sessions@) =~= sess_keys(old_sessions).remove(i as int));
            lemma_unique_remove(sess_keys(old_sessions), i as int);
        }
        Ok(())
    }

    /// Reorder a session. The in-memory store keeps no session order, so this
    /// only checks that the session exists.
    pub fn reorder_session(&self, id: &SessionId, sort_order: u32) -> (r: Result<()>)
        ensures
            pos_of(sess_keys(self@.sessions), id@) is Some ==> r is Ok,
            pos_of(sess_keys(self@.sessions), id@) is None ==> (r matches Err(
                OrchestratorError::SessionNotFound(e),
            ) && e@ == id@),
    {
        match self.find_session(id.as_str()) {
            Some(_) => Ok(()),
            None => Err(OrchestratorError::SessionNotFound(id.as_str().to_owned())),
        }
    }

    /// Record the launch spec (version, json) of a live session.
    pub fn set_session_spec(&mut self, id: &SessionId, spec_version: u32, spec_json: &str) -> (r:
        Result<()>)
        requires
            old(self)@.wf(),
        ensures
            final(self)@.wf(),
            match live_session(old(self)@.sessions, id@) {
                Some(s) => {
                    let i = pos_of(sess_keys(old(self)@.sessions), id@)->0;
                    &&& r is Ok
                    &&& final(self)@.sessions[i].session.spec_json matches Some(j) && j@ == spec_json@
                    &&& final(self)@ == (StoreView {
                        sessions: old(self)@.sessions.update(
                            i,
                            SessionRecord {
                                session: Session {
                                    spec_version: Some(spec_version),
                                    spec_json: final(self)@.sessions[i].session.spec_json,
                                    ..s
                                },
                                ..old(self)@.sessions[i]
                            },
                        ),
                        ..old(self)@
                    })
                },
                None => final(self)@ == old(self)@ && (r matches Err(
                    OrchestratorError::SessionNotFound(e),
                ) && e@ == id@),
            },
    {
        match self.find_session(id.as_str()) {
            Some(i) => {
                if self.sessions[i].deleted {
                    return Err(OrchestratorError::SessionNotFound(id.as_str().to_owned()));
                }
                let ghost old_sessions = self.sessions@;
                let old_rec = &self.sessions[i];
                let rec = SessionRecord {
                    session: Session {
                        spec_version: Some(spec_version),
                        spec_json: Some(spec_json.to_owned()),
                        ..old_rec.session.duplicate()
                    },
                    deleted: old_rec.deleted,
                    layout_json: crate::entities::project::copy_opt_string(&old_rec.layout_json),
                };
                self.sessions.set(i, rec);
                proof {
                    lemma_pos_of(sess_keys(old_sessions), id@);
                    assert(sess_keys(self.sessions@) =~= sess_keys(old_sessions));
                }
                Ok(())
            },
            None => Err(OrchestratorError::SessionNotFound(id.as_str().to_owned())),
        }
    }

    /// Record the pane layout of a live session.
    pub fn set_session_layout(&mut self, id: &SessionId, layout_json: &str) -> (r: Result<()>)
        requires
            old(self)@.wf(),
        ensures
            final(self)@.wf(),
            match live_session(old(self)@.sessions, id@) {
                Some(s) => {
                    let i = pos_of(sess_keys(old(self)@.sessions), id@)->0;
                    &&& r is Ok
                    &&& final(self)@.sessions[i].layout_json matches Some(l) && l@ == layout_json@
                    &&& final(self)@ == (StoreView {
                        sessions: old(self)@.sessions.update(
                            i,
                            SessionRecord {
                                layout_json: final(self)@.sessions[i].layout_json,
                                ..old(self)@.sessions[i]
                            },
                        ),
                        ..old(self)@
                    })
                },
                None => final(self)@ == old(self)@ && (r matches Err(
                    OrchestratorError::SessionNotFound(e),
                ) && e@ == id@),
            },
    {
        match self.find_session(id.as_str()) {
            Some(i) => {
                if self.sessions[i].deleted {
                    return Err(OrchestratorError::SessionNotFound(id.as_str().to_owned()));
                }
                let ghost old_sessions = self.sessions@;
                let rec = SessionRecord {
                    session: self.sessions[i].session.duplicate(),
                    deleted: self.sessions[i].deleted,
                    layout_json: Some(layout_json.to_owned()),
                };
                self.sessions.set(i, rec);
                proof {
                    lemma_pos_of(sess_keys(old_sessions), id@);
                    assert(sess_keys(self.sessions@) =~= sess_keys(old_sessions));
                }
                Ok(())
            },
            None => Err(OrchestratorError::SessionNotFound(id.as_str().to_owned())),
        }
    }

    /// The pane layout of a live session (`None` when none was recorded).
    pub fn get_session_layout(&self, id: &SessionId) -> (r: Result<Option<String>>)
        ensures
            match live_session(self@.sessions, id@) {
                Some(_) => r == Ok::<Option<String>, OrchestratorError>(
                    self@.sessions[pos_of(sess_keys(self@.sessions), id@)->0].layout_json,
                ),
                None => r matches Err(OrchestratorError::SessionNotFound(e)) && e@ == id@,
            },
    {
        match self.find_session(id.as_str()) {
            Some(i) => {
                if self.sessions[i].deleted {
                    Err(OrchestratorError::SessionNotFound(id.as_str().to_owned()))
                } else {
                    Ok(crate::entities::project::copy_opt_string(&self.sessions[i].layout_json))
                }
            },
            None => Err(OrchestratorError::SessionNotFound(id.as_str().to_owned())),
        }
    }
}

impl MemoryBackend {
    /// Archive a live project other than Unfiled, with its live sessions and
    /// their surfaces.
    pub fn archive_project(&mut self, id: &ProjectId) -> (r: Result<()>)
        requires
            old(self)@.wf(),
        ensures
            final(self)@.wf(),
            id@ == ProjectId::UNFILED@ ==> r == Err::<(), OrchestratorError>(
                OrchestratorError::ProjectIsUnfiled,
            ) && final(self)@ == old(self)@,
            id@ != ProjectId::UNFILED@ ==> match live_project(old(self)@.projects, id@) {
                Some(_) => {
                    let i = pos_of(proj_keys(old(self)@.projects), id@)->0;
                    &&& r is Ok
                    &&& final(self)@ == (StoreView {
                        projects: old(self)@.projects.update(
                            i,
                            ProjectRecord { deleted: true, ..old(self)@.projects[i] },
                        ),
                        sessions: sessions_after_project_archive(old(self)@.sessions, id@),
                        surfaces: surfaces_after_project_archive(
                            old(self)@.surfaces,
                            old(self)@.sessions,
                            id@,
                        ),
                        ..old(self)@
                    })
                },
                None => final(self)@ == old(self)@ && (r matches Err(
                    OrchestratorError::ProjectNotFound(e),
                ) && e@ == id@),
            },
    {
        if id.is_unfiled() {
            return Err(OrchestratorError::ProjectIsUnfiled);
        }
        let i = match self.find_project(id.as_str()) {
            Some(i) => i,
            None => {
                return Err(OrchestratorError::ProjectNotFound(id.as_str().to_owned()));
            },
        };
        if self.projects[i].deleted {
            return Err(OrchestratorError::ProjectNotFound(id.as_str().to_owned()));
        }
        let ghost old_projects = self.projects@;
        let rec = ProjectRecord {
            project: self.projects[i].project.duplicate(),
            deleted: true,
            created_seq: self.projects[i].created_seq,
        };
        self.projects.set(i, rec);
        proof {
            lemma_pos_of(proj_keys(old_projects), id@);
            assert(proj_keys(self.projects@) =~= proj_keys(old_projects));
        }
        // Surfaces first, while the sessions still show which are live.
        let ghost pre = self@;
        let ghost old_s = self.surfaces@;
        let ghost sessions = self.sessions@;
        let mut t: usize = 0;
        while t < self.surfaces.len()
            invariant
                self@ == (StoreView { surfaces: self@.surfaces, ..pre }),
                pre.surfaces == old_s,
                pre.sessions == sessions,
                t <= old_s.len(),
                self.surfaces@.len() == old_s.len(),
                surf_keys(self.surfaces@) == surf_keys(old_s),
                forall|u: int|
                    0 <= u < t ==> #[trigger] self.surfaces@[u] == surfaces_after_project_archive(
                        old_s,
                        sessions,
                        id@,
                    )[u],
                forall|u: int| t <= u < old_s.len() ==> #[trigger] self.surfaces@[u] == old_s[u],
            decreases old_s.len() - t,
        {
            let hit = match self.find_session(self.surfaces[t].surface.session_id.as_str()) {
                Some(k) => self.sessions[k].session.project_id.same(id) && !self.sessions[k].deleted,
                None => false,
            };
            if hit {
                let rec = SurfaceRecord { surface: self.surfaces[t].surface.duplicate(), deleted: true };
                let ghost before = self.surfaces@;
                self.surfaces.set(t, rec);
                proof {
                    assert(surf_keys(self.surfaces@) =~= surf_keys(before));
                }
            }
            t = t + 1;
        }
        proof {
            assert(self.surfaces@ =~= surfaces_after_project_archive(old_s, sessions, id@));
        }
        let ghost pre2 = self@;
        let mut j: usize = 0;
        while j < self.sessions.len()
            invariant
                self@ == (StoreView { sessions: self@.sessions, ..pre2 }),
                pre2.sessions == sessions,
                j <= sessions.len(),
                self.sessions@.len() == sessions.len(),
                sess_keys(self.sessions@) == sess_keys(sessions),
                forall|u: int|
                    0 <= u < j ==> #[trigger] self.sessions@[u] == sessions_after_project_archive(
                        sessions,
                        id@,
                    )[u],
                forall|u: int| j <= u < sessions.len() ==> #[trigger] self.sessions@[u] == sessions[u],
            decreases sessions.len() - j,
        {
            if self.sessions[j].session.project_id.same(id) && !self.sessions[j].deleted {
                let rec = SessionRecord {
                    session: self.sessions[j].session.duplicate(),
                    deleted: true,
                    layout_json: crate::entities::project::copy_opt_string(&self.sessions[j].layout_json),
                };
                let ghost before = self.sessions@;
                self.sessions.set(j, rec);
                proof {
                    assert(sess_keys(self.sessions@) =~= sess_keys(before));
                }
            }
            j = j + 1;
        }
        proof {
            assert(self.sessions@ =~= sessions_after_project_archive(sessions, id@));
        }
        Ok(())
    }

    /// Delete an archived project other than Unfiled for good, with all its
    /// sessions and their surfaces.
    pub fn hard_delete_project(&mut self, id: &ProjectId) -> (r: Result<()>)
        requires
            old(self)@.wf(),
        ensures
            final(self)@.wf(),
            id@ == ProjectId::UNFILED@ ==> r == Err::<(), OrchestratorError>(
                OrchestratorError::ProjectIsUnfiled,
            ) && final(self)@ == old(self)@,
            id@ != ProjectId::UNFILED@ ==> match pos_of(proj_keys(old(self)@.projects), id@) {
                None => final(self)@ == old(self)@ && (r matches Err(
                    OrchestratorError::ProjectNotFound(e),
                ) && e@ == id@),
                Some(i) => if !old(self)@.projects[i].deleted {
                    final(self)@ == old(self)@ && r == Err::<(), OrchestratorError>(
                        OrchestratorError::ProjectNotArchived,
                    )
                } else {
                    &&& r is Ok
                    &&& final(self)@ == (StoreView {
                        projects: old(self)@.projects.remove(i),
                        sessions: drop_where(old(self)@.sessions, of_project(id@)),
                        surfaces: drop_where(
                            old(self)@.surfaces,
                            of_project_session(old(self)@.sessions, id@),
                        ),
                        ..old(self)@
                    })
                },
            },
    {
        if id.is_unfiled() {
            return Err(OrchestratorError::ProjectIsUnfiled);
        }
        let i = match self.find_project(id.as_str()) {
            Some(i) => i,
            None => {
                return Err(OrchestratorError::ProjectNotFound(id.as_str().to_owned()));
            },
        };
        if !self.projects[i].deleted {
            return Err(OrchestratorError::ProjectNotArchived);
        }
        let ghost old_surfaces = self.surfaces@;
        let ghost old_sessions = self.sessions@;
        let ghost old_projects = self.projects@;
        let mut flags: Vec<bool> = Vec::new();
        let mut t: usize = 0;
        while t < self.surfaces.len()
            invariant
                old_surfaces == self.surfaces@,
                old_sessions == self.sessions@,
                t <= old_surfaces.len(),
                flags@.len() == t,
                forall|u: int|
                    0 <= u < t ==> flags@[u] == of_project_session(old_sessions, id@)(
                        #[trigger] old_surfaces[u],
                    ),
            decreases old_surfaces.len() - t,
        {
            let hit = match self.find_session(self.surfaces[t].surface.session_id.as_str()) {
                Some(k) => self.sessions[k].session.project_id.same(id),
                None => false,
            };
            flags.push(hit);
            t = t + 1;
        }
        remove_flagged(&mut self.surfaces, &flags);
        proof {
            lemma_keep_unflagged_is_drop_where(old_surfaces, flags@, of_project_session(old_sessions, id@));
            lemma_surface_keys_dropped(old_surfaces, of_project_session(old_sessions, id@));
        }
        let mut sflags: Vec<bool> = Vec::new();
        let mut j: usize = 0;
        while j < self.sessions.len()
            invariant
                old_sessions == self.sessions@,
                j <= old_sessions.len(),
                sflags@.len() == j,
                forall|u: int| 0 <= u < j ==> sflags@[u] == of_project(id@)(#[trigger] old_sessions[u]),
            decreases old_sessions.len() - j,
        {
            sflags.push(self.sessions[j].session.project_id.same(id));
            j = j + 1;
        }
        remove_flagged(&mut self.sessions, &sflags);
        proof {
            lemma_keep_unflagged_is_drop_where(old_sessions, sflags@, of_project(id@));
            lemma_session_keys_dropped(old_sessions, of_project(id@));
        }
        self.projects.remove(i);
        proof {
            assert(proj_keys(self.projects@) =~= proj_keys(old_projects).remove(i as int));
            lemma_unique_remove(proj_keys(old_projects), i as int);
        }
        Ok(())
    }
}

} // verus!
