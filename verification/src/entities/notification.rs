//! Notification entity: a durably-stored user-facing notification.

use vstd::prelude::*;

use super::project::copy_opt_string;

verus! {

/// A notification. `ts` is event time in epoch milliseconds; `actions_json` is a
/// JSON-encoded action list when present.
#[derive(Debug, Clone, PartialEq, Eq)]
pub struct NotificationRecord {
    pub id: String,
    pub category: String,
    pub severity: String,
    pub title: Option<String>,
    pub message: String,
    pub detail: Option<String>,
    pub ts: i64,
    pub session_id: Option<String>,
    pub surface_id: Option<String>,
    pub actions_json: Option<String>,
}

impl NotificationRecord {
    /// A copy of this record.
    pub fn duplicate(&self) -> (r: NotificationRecord)
        ensures
            r == *self,
    {
        NotificationRecord {
            id: self.id.clone(),
            category: self.category.clone(),
            severity: self.severity.clone(),
            title: copy_opt_string(&self.title),
            message: self.message.clone(),
            detail: copy_opt_string(&self.detail),
            ts: self.ts,
            session_id: copy_opt_string(&self.session_id),
            surface_id: copy_opt_string(&self.surface_id),
            actions_json: copy_opt_string(&self.actions_json),
        }
    }
}

} // verus!
