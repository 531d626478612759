//! Portable template library entity: a named bundle (prebuilt or custom)
//! selectable at session creation. Prebuilt templates are immutable.

use vstd::prelude::*;

use crate::error::{OrchestratorError, Result};

verus! {

/// Stable identifier for a library template.
#[derive(Debug, Clone, PartialEq, Eq, Hash)]
pub struct TemplateId(String);

impl View for TemplateId {
    type V = Seq<char>;

    closed spec fn view(&self) -> Seq<char> {
        self.0@
    }
}

impl TemplateId {
    /// A fresh random (UUID v4) id.
    pub fn mint() -> (r: Self)
        ensures
            crate::entities::is_uuid_text(r@),
    {
        TemplateId(super::new_uuid_string())
    }

    /// Wrap an existing id string.
    pub fn from_string(id: &str) -> (r: Self)
        ensures
            r@ == id@,
    {
        TemplateId(id.to_owned())
    }

    /// The id string.
    pub fn as_str(&self) -> (r: &str)
        ensures
            r@ == self@,
    {
        self.0.as_str()
    }

    /// A copy of this id.
    pub fn duplicate(&self) -> (r: Self)
        ensures
            r == *self,
            r@ == self@,
    {
        TemplateId(self.0.clone())
    }

    /// Whether two ids are the same string.
    pub fn same(&self, other: &Self) -> (b: bool)
        ensures
            b == (self@ == other@),
    {
        self.0 == other.0
    }
}
/// Origin discriminator shared with the command library.
#[derive(Debug, Clone, Copy, PartialEq, Eq, Structural)]
pub enum TemplateOrigin {
    Prebuilt,
    Custom,
}

impl TemplateOrigin {
    /// The stored name of the value.
    pub fn as_str(self) -> (r: &'static str)
        ensures
            r@ == (match self {
                TemplateOrigin::Prebuilt => "prebuilt"@,
                TemplateOrigin::Custom => "custom"@,
            }),
    {
        match self {
            TemplateOrigin::Prebuilt => "prebuilt",
            TemplateOrigin::Custom => "custom",
        }
    }
}

/// A portable template bundle from the library.
#[derive(Debug, Clone, PartialEq, Eq)]
pub struct Template {
    pub id: TemplateId,
    pub name: String,
    pub origin: TemplateOrigin,
    pub pinned: bool,
    pub spec_version: u32,
    pub spec_json: String,
}

impl Template {
    /// Guard: reject discard or edit on a Prebuilt template.
    pub fn guard_not_prebuilt(&self) -> (r: Result<()>)
        ensures
            r == (if self.origin == TemplateOrigin::Prebuilt {
                Err(OrchestratorError::PrebuiltImmutable { kind: "template" })
            } else {
                Ok(())
            }),
    {
        if self.origin == TemplateOrigin::Prebuilt {
            Err(OrchestratorError::PrebuiltImmutable { kind: "template" })
        } else {
            Ok(())
        }
    }
}

} // verus!
