//! Command library entity: a named CLI invocation (prebuilt or custom).

use vstd::prelude::*;

use crate::text::{spec_trim, trim};

verus! {

/// Stable identifier of a library command.
#[derive(Debug, Clone, PartialEq, Eq, Hash)]
pub struct CommandId(String);

impl View for CommandId {
    type V = Seq<char>;

    closed spec fn view(&self) -> Seq<char> {
        self.0@
    }
}

impl CommandId {
    /// A fresh random (UUID v4) id.
    pub fn mint() -> (r: Self)
        ensures
            crate::entities::is_uuid_text(r@),
    {
        CommandId(super::new_uuid_string())
    }

    /// Wrap an existing id string.
    pub fn from_string(id: &str) -> (r: Self)
        ensures
            r@ == id@,
    {
        CommandId(id.to_owned())
    }

    /// The id string.
    pub fn as_str(&self) -> (r: &str)
        ensures
            r@ == self@,
    {
        self.0.as_str()
    }

    /// A copy of this id.
    pub fn duplicate(&self) -> (r: Self)
        ensures
            r == *self,
            r@ == self@,
    {
        CommandId(self.0.clone())
    }

    /// Whether two ids are the same string.
    pub fn same(&self, other: &Self) -> (b: bool)
        ensures
            b == (self@ == other@),
    {
        self.0 == other.0
    }
}

/// Whether a command ships with the product or was added by the user.
#[derive(Debug, Clone, Copy, PartialEq, Eq, Structural)]
pub enum CommandOrigin {
    Prebuilt,
    Custom,
}

/// The stored name of a command origin.
pub open spec fn command_origin_name(x: CommandOrigin) -> Seq<char> {
    match x {
        CommandOrigin::Prebuilt => "prebuilt"@,
        CommandOrigin::Custom => "custom"@,
    }
}

impl CommandOrigin {
    /// The stored name of the origin.
    pub fn as_str(self) -> (r: &'static str)
        ensures
            r@ == command_origin_name(self),
            r@ == (match self {
                CommandOrigin::Prebuilt => "prebuilt"@,
                CommandOrigin::Custom => "custom"@,
            }),
    {
        match self {
            CommandOrigin::Prebuilt => "prebuilt",
            CommandOrigin::Custom => "custom",
        }
    }
}

/// A library command. `env` holds the extra environment as key/value pairs.
#[derive(Debug, Clone, PartialEq, Eq)]
pub struct Command {
    pub id: CommandId,
    pub name: String,
    pub origin: CommandOrigin,
    pub cli: String,
    pub args: Vec<String>,
    pub env: Vec<(String, String)>,
    pub pinned: bool,
}

/// The keys of an environment list.
pub open spec fn env_keys(env: Seq<(String, String)>) -> Seq<Seq<char>> {
    env.map_values(|p: (String, String)| p.0@)
}

/// No variable is set twice in an environment list.
pub open spec fn env_keys_unique(env: Seq<(String, String)>) -> bool {
    forall|i: int, j: int| 0 <= i < j < env.len() ==> #[trigger] env_keys(env)[i] != #[trigger] env_keys(env)[j]
}

impl Command {
    /// The command's environment sets each variable once.
    pub open spec fn wf(self) -> bool {
        env_keys_unique(self.env@)
    }
}

/// Two commands agree field by field (vectors by their contents).
pub open spec fn same_command(a: Command, b: Command) -> bool {
    &&& a.id == b.id
    &&& a.name == b.name
    &&& a.origin == b.origin
    &&& a.cli == b.cli
    &&& a.args@ == b.args@
    &&& a.env@ == b.env@
    &&& a.pinned == b.pinned
}

/// Copy a vector of strings element by element.
pub fn copy_strings(v: &Vec<String>) -> (r: Vec<String>)
    ensures
        r@ == v@,
{
    let mut r: Vec<String> = Vec::new();
    let mut i: usize = 0;
    while i < v.len()
        invariant
            i <= v.len(),
            r@ == v@.take(i as int),
        decreases v.len() - i,
    {
        r.push(v[i].clone());
        proof {
            assert(r@ =~= v@.take(i + 1));
        }
        i = i + 1;
    }
    assert(v@.take(v.len() as int) =~= v@);
    r
}

/// Copy a vector of string pairs element by element.
pub fn copy_pairs(v: &Vec<(String, String)>) -> (r: Vec<(String, String)>)
    ensures
        r@ == v@,
{
    let mut r: Vec<(String, String)> = Vec::new();
    let mut i: usize = 0;
    while i < v.len()
        invariant
            i <= v.len(),
            r@ == v@.take(i as int),
        decreases v.len() - i,
    {
        let (k, x) = &v[i];
        r.push((k.clone(), x.clone()));
        proof {
            assert(r@ =~= v@.take(i + 1));
        }
        i = i + 1;
    }
    assert(v@.take(v.len() as int) =~= v@);
    r
}

impl Command {
    /// Rename the command. Trims whitespace.
    pub fn rename(&mut self, name: &str)
        ensures
            final(self).name@ == spec_trim(name@),
            *final(self) == (Command { name: final(self).name, ..*old(self) }),
    {
        self.name = trim(name);
    }

    /// A copy of this command.
    pub fn duplicate(&self) -> (r: Command)
        ensures
            same_command(r, *self),
    {
        Command {
            id: self.id.duplicate(),
            name: self.name.clone(),
            origin: self.origin,
            cli: self.cli.clone(),
            args: copy_strings(&self.args),
            env: copy_pairs(&self.env),
            pinned: self.pinned,
        }
    }
}

/// Parameters for adding a command to the library.
#[derive(Debug, Clone)]
pub struct NewCommand {
    pub name: String,
    pub origin: CommandOrigin,
    pub cli: String,
    pub args: Vec<String>,
    pub env: Vec<(String, String)>,
}

} // verus!
