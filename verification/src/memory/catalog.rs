//! The command library, launch templates and notification history of the
//! in-memory store.

use vstd::prelude::*;

use super::{
    cmd_keys, drop_where, lemma_pos_of, lemma_unique_push, lt_keys, pos_of, CommandRecord,
    MemoryBackend, StoreView,
};
use crate::entities::command::{copy_pairs, copy_strings, env_keys_unique, same_command};
use crate::entities::{
    Command, CommandId, LaunchTemplate, LaunchTemplateId, NewCommand, NewLaunchTemplate,
    NotificationRecord,
};
use crate::error::{OrchestratorError, Result};

verus! {

/// The live (not removed) command with the given id.
pub open spec fn live_command(s: Seq<CommandRecord>, id: Seq<char>) -> Option<Command> {
    match pos_of(cmd_keys(s), id) {
        Some(i) => if s[i].deleted {
            None
        } else {
            Some(s[i].command)
        },
        None => None,
    }
}

/// The commands a listing returns: the live ones, in store order.
pub open spec fn commands_listed(s: Seq<CommandRecord>) -> Seq<CommandRecord> {
    drop_where(s, |r: CommandRecord| r.deleted)
}

/// `after` is `before` with the live command `c` stored under its id
/// (replacing a command with the same id, else appended).
pub open spec fn command_stored(before: Seq<CommandRecord>, after: Seq<CommandRecord>, c: Command) -> bool {
    match pos_of(cmd_keys(before), c.id@) {
        Some(i) => {
            &&& after.len() == before.len()
            &&& same_command(after[i].command, c)
            &&& !after[i].deleted
            &&& forall|j: int| 0 <= j < before.len() && j != i ==> #[trigger] after[j] == before[j]
        },
        None => {
            &&& after.len() == before.len() + 1
            &&& after.drop_last() == before
            &&& same_command(after.last().command, c)
            &&& !after.last().deleted
        },
    }
}

/// `c` is the command a draft describes, custom-library fields as given,
/// unpinned, under a fresh id.
pub open spec fn command_from_draft(c: Command, draft: NewCommand) -> bool {
    &&& crate::entities::is_uuid_text(c.id@)
    &&& c.name == draft.name
    &&& c.origin == draft.origin
    &&& c.cli == draft.cli
    &&& c.args@ == draft.args@
    &&& c.env@ == draft.env@
    &&& !c.pinned
}

/// Insert `t`, replacing a launch template with the same id.
pub open spec fn lt_upsert(s: Seq<LaunchTemplate>, t: LaunchTemplate) -> Seq<LaunchTemplate> {
    match pos_of(lt_keys(s), t.id@) {
        Some(i) => s.update(i, t),
        None => s.push(t),
    }
}

/// The launch template with the given id.
pub open spec fn stored_launch_template(s: Seq<LaunchTemplate>, id: Seq<char>) -> Option<LaunchTemplate> {
    match pos_of(lt_keys(s), id) {
        Some(i) => Some(s[i]),
        None => None,
    }
}

/// The `limit` most recent notifications, newest first.
pub open spec fn newest_first(n: Seq<NotificationRecord>, limit: nat) -> Seq<NotificationRecord> {
    let k = if limit < n.len() {
        limit
    } else {
        n.len()
    };
    Seq::new(k, |i: int| n[n.len() - 1 - i])
}

/// The history after keeping only the `keep` most recent notifications.
pub open spec fn pruned(n: Seq<NotificationRecord>, keep: nat) -> Seq<NotificationRecord> {
    if n.len() > keep {
        n.skip(n.len() - keep)
    } else {
        n
    }
}

impl MemoryBackend {
    /// The live commands, in store order.
    pub fn list_commands(&self) -> (r: Result<Vec<Command>>)
        ensures
            match r {
                Ok(v) => {
                    &&& v@.len() == commands_listed(self@.commands).len()
                    &&& forall|t: int|
                        0 <= t < v@.len() ==> same_command(
                            #[trigger] v@[t],
                            commands_listed(self@.commands)[t].command,
                        )
                },
                Err(_) => false,
            },
    {
        let ghost s = self.commands@;
        let ghost gone = |r: CommandRecord| r.deleted;
        let mut out: Vec<Command> = Vec::new();
        let mut i: usize = 0;
        while i < self.commands.len()
            invariant
                s == self.commands@,
                gone == (|r: CommandRecord| r.deleted),
                i <= s.len(),
                out@.len() == drop_where(s.take(i as int), gone).len(),
                forall|t: int|
                    0 <= t < out@.len() ==> same_command(
                        #[trigger] out@[t],
                        drop_where(s.take(i as int), gone)[t].command,
                    ),
            decreases s.len() - i,
        {
            proof {
                assert(s.take(i + 1).drop_last() =~= s.take(i as int));
                assert(s.take(i + 1).last() == s[i as int]);
            }
            if !self.commands[i].deleted {
                out.push(self.commands[i].command.duplicate());
            }
            i = i + 1;
        }
        proof {
            assert(s.take(i as int) =~= s);
        }
        Ok(out)
    }

    /// The live command with the given id.
    pub fn get_command(&self, id: &str) -> (r: Result<Option<Command>>)
        ensures
            match live_command(self@.commands, id@) {
                Some(c) => r matches Ok(Some(x)) && same_command(x, c),
                None => r matches Ok(None),
            },
    {
        match self.find_command(id) {
            Some(i) => {
                if self.commands[i].deleted {
                    Ok(None)
                } else {
                    Ok(Some(self.commands[i].command.duplicate()))
                }
            },
            None => Ok(None),
        }
    }

    /// Add a command to the library under a fresh id.
    pub fn create_command(&mut self, draft: NewCommand) -> (r: Result<Command>)
        requires
            old(self)@.wf(),
            env_keys_unique(draft.env@),
        ensures
            final(self)@.wf(),
            match r {
                Ok(c) => {
                    &&& command_from_draft(c, draft)
                    &&& command_stored(old(self)@.commands, final(self)@.commands, c)
                    &&& final(self)@ == (StoreView { commands: final(self)@.commands, ..old(self)@ })
                },
                Err(_) => false,
            },
    {
        let command = Command {
            id: CommandId::mint(),
            name: draft.name,
            origin: draft.origin,
            cli: draft.cli,
            args: draft.args,
            env: draft.env,
            pinned: false,
        };
        let out = command.duplicate();
        let rec = CommandRecord { command, deleted: false };
        let ghost old_cmds = self.commands@;
        match self.find_command(rec.command.id.as_str()) {
            Some(k) => {
                self.commands.set(k, rec);
                proof {
                    lemma_pos_of(cmd_keys(old_cmds), out.id@);
                    assert(cmd_keys(self.commands@) =~= cmd_keys(old_cmds));
                }
            },
            None => {
                self.commands.push(rec);
                proof {
                    assert(cmd_keys(self.commands@) =~= cmd_keys(old_cmds).push(out.id@));
                    lemma_unique_push(cmd_keys(old_cmds), out.id@);
                    assert(self.commands@.drop_last() =~= old_cmds);
                }
            },
        }
        Ok(out)
    }

    /// Remove a command from the library (a missing command is ignored).
    pub fn delete_command(&mut self, id: &str) -> (r: Result<()>)
        requires
            old(self)@.wf(),
        ensures
            r is Ok,
            final(self)@.wf(),
            match pos_of(cmd_keys(old(self)@.commands), id@) {
                Some(i) => final(self)@.commands.len() == old(self)@.commands.len()
                    && final(self)@.commands[i].deleted && same_command(
                    final(self)@.commands[i].command,
                    old(self)@.commands[i].command,
                ) && (forall|j: int|
                    0 <= j < old(self)@.commands.len() && j != i ==> #[trigger] final(self)@.commands[j]
                        == old(self)@.commands[j]) && final(self)@ == (StoreView {
                    commands: final(self)@.commands,
                    ..old(self)@
                }),
                None => final(self)@ == old(self)@,
            },
    {
        match self.find_command(id) {
            Some(i) => {
                let ghost old_cmds = self.commands@;
                let rec = CommandRecord { command: self.commands[i].command.duplicate(), deleted: true };
                self.commands.set(i, rec);
                proof {
                    lemma_pos_of(cmd_keys(old_cmds), id@);
                    assert(cmd_keys(self.commands@) =~= cmd_keys(old_cmds));
                }
            },
            None => {},
        }
        Ok(())
    }

    /// Record a launch template under a fresh id.
    pub fn create_launch_template(&mut self, draft: NewLaunchTemplate) -> (r: Result<LaunchTemplate>)
        requires
            old(self)@.wf(),
        ensures
            final(self)@.wf(),
            match r {
                Ok(t) => {
                    &&& crate::entities::is_uuid_text(t.id@)
                    &&& t.project_id == draft.project_id
                    &&& t.spec_version == draft.spec_version
                    &&& t.spec_json == draft.spec_json
                    &&& final(self)@ == (StoreView {
                        launch_templates: lt_upsert(old(self)@.launch_templates, t),
                        ..old(self)@
                    })
                },
                Err(_) => false,
            },
    {
        let template = LaunchTemplate {
            id: LaunchTemplateId::mint(),
            project_id: draft.project_id,
            spec_version: draft.spec_version,
            spec_json: draft.spec_json,
        };
        let out = template.duplicate();
        let ghost old_lts = self.launch_templates@;
        match self.find_launch_template(template.id.as_str()) {
            Some(k) => {
                self.launch_templates.set(k, template);
                proof {
                    lemma_pos_of(lt_keys(old_lts), out.id@);
                    assert(lt_keys(self.launch_templates@) =~= lt_keys(old_lts));
                }
            },
            None => {
                self.launch_templates.push(template);
                proof {
                    assert(lt_keys(self.launch_templates@) =~= lt_keys(old_lts).push(out.id@));
                    lemma_unique_push(lt_keys(old_lts), out.id@);
                }
            },
        }
        Ok(out)
    }

    /// The launch template with the given id.
    pub fn get_launch_template(&self, id: &LaunchTemplateId) -> (r: Result<Option<LaunchTemplate>>)
        ensures
            r == Ok::<Option<LaunchTemplate>, OrchestratorError>(
                stored_launch_template(self@.launch_templates, id@),
            ),
    {
        match self.find_launch_template(id.as_str()) {
            Some(i) => Ok(Some(self.launch_templates[i].duplicate())),
            None => Ok(None),
        }
    }

    /// Replace the launch spec (version, json) of a launch template.
    pub fn set_launch_template_spec(&mut self, id: &LaunchTemplateId, spec_version: u32, spec_json: &str) -> (r:
        Result<()>)
        requires
            old(self)@.wf(),
        ensures
            final(self)@.wf(),
            match pos_of(lt_keys(old(self)@.launch_templates), id@) {
                Some(i) => {
                    &&& r is Ok
                    &&& final(self)@.launch_templates[i].spec_json@ == spec_json@
                    &&& final(self)@ == (StoreView {
                        launch_templates: old(self)@.launch_templates.update(
                            i,
                            LaunchTemplate {
                                spec_version,
                                spec_json: final(self)@.launch_templates[i].spec_json,
                                ..old(self)@.launch_templates[i]
                            },
                        ),
                        ..old(self)@
                    })
                },
                None => final(self)@ == old(self)@ && (r matches Err(
                    OrchestratorError::LaunchTemplateNotFound(e),
                ) && e@ == id@),
            },
    {
        match self.find_launch_template(id.as_str()) {
            Some(i) => {
                let ghost old_lts = self.launch_templates@;
                let t = LaunchTemplate {
                    spec_version,
                    spec_json: spec_json.to_owned(),
                    ..self.launch_templates[i].duplicate()
                };
                self.launch_templates.set(i, t);
                proof {
                    lemma_pos_of(lt_keys(old_lts), id@);
                    assert(lt_keys(self.launch_templates@) =~= lt_keys(old_lts));
                }
                Ok(())
            },
            None => Err(OrchestratorError::LaunchTemplateNotFound(id.as_str().to_owned())),
        }
    }

    /// Append a notification to the history.
    pub fn insert_notification(&mut self, rec: &NotificationRecord) -> (r: Result<()>)
        requires
            old(self)@.wf(),
        ensures
            r is Ok,
            final(self)@.wf(),
            final(self)@ == (StoreView {
                notifications: old(self)@.notifications.push(*rec),
                ..old(self)@
            }),
    {
        self.notifications.push(rec.duplicate());
        Ok(())
    }

    /// The `limit` most recent notifications, newest first.
    pub fn list_notifications(&self, limit: u32) -> (r: Result<Vec<NotificationRecord>>)
        ensures
            r matches Ok(v) && v@ == newest_first(self@.notifications, limit as nat),
    {
        let n = self.notifications.len();
        let k: usize = if (limit as usize) < n {
            limit as usize
        } else {
            n
        };
        let mut out: Vec<NotificationRecord> = Vec::new();
        let mut i: usize = 0;
        while i < k
            invariant
                n == self.notifications@.len(),
                k <= n,
                k == (if limit < n {
                    limit as nat
                } else {
                    n as nat
                }),
                i <= k,
                out@.len() == i,
                forall|t: int| 0 <= t < i ==> #[trigger] out@[t] == self.notifications@[n - 1 - t],
            decreases k - i,
        {
            out.push(self.notifications[n - 1 - i].duplicate());
            i = i + 1;
        }
        proof {
            assert(out@ =~= newest_first(self@.notifications, limit as nat));
        }
        Ok(out)
    }

    /// Keep only the `keep` most recent notifications.
    pub fn prune_notifications(&mut self, keep: u32) -> (r: Result<()>)
        requires
            old(self)@.wf(),
        ensures
            r is Ok,
            final(self)@.wf(),
            final(self)@ == (StoreView {
                notifications: pruned(old(self)@.notifications, keep as nat),
                ..old(self)@
            }),
    {
        let len = self.notifications.len();
        if len > keep as usize {
            let drop = len - keep as usize;
            let ghost old_n = self.notifications@;
            let mut kept: Vec<NotificationRecord> = Vec::new();
            let mut i: usize = drop;
            while i < len
                invariant
                    old_n == self.notifications@,
                    len == old_n.len(),
                    drop <= i <= len,
                    kept@ == old_n.subrange(drop as int, i as int),
                decreases len - i,
            {
                kept.push(self.notifications[i].duplicate());
                proof {
                    assert(kept@ =~= old_n.subrange(drop as int, i + 1));
                }
                i = i + 1;
            }
            self.notifications = kept;
            proof {
                assert(self.notifications@ =~= old_n.skip(drop as int));
            }
        }
        Ok(())
    }
}

} // verus!
