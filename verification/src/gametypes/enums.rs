use vstd::prelude::*;

verus! {

/// Privileges of an account.
#[derive(Copy, Clone, Debug, PartialEq, Eq, Structural)]
pub enum UserAccess {
    NoAccess,
    Monitor,
    Admin,
}

impl Default for UserAccess {
    fn default() -> (r: Self)
        ensures
            r == UserAccess::NoAccess,
    {
        UserAccess::NoAccess
    }
}

/// Category of a row in the audit log.
#[derive(Copy, Clone, Debug, PartialEq, Eq, Structural)]
pub enum LogType {
    Login,
    Logout,
    Item,
    Warning,
    Error,
}

/// Life state of a player character.
#[derive(Copy, Clone, Debug, PartialEq, Eq, Structural)]
pub enum DeathType {
    Alive,
    Spirit,
    Dead,
    Spawning,
}

impl Default for DeathType {
    fn default() -> (r: Self)
        ensures
            r == DeathType::Alive,
    {
        DeathType::Alive
    }
}

impl DeathType {
    /// Every state other than `Alive` counts as dead.
    pub fn is_dead(self) -> (r: bool)
        ensures
            r == (self != DeathType::Alive),
    {
        !matches!(self, DeathType::Alive)
    }

    pub fn is_spirit(self) -> (r: bool)
        ensures
            r == (self == DeathType::Spirit),
    {
        matches!(self, DeathType::Spirit)
    }

    pub fn is_alive(self) -> (r: bool)
        ensures
            r == (self == DeathType::Alive),
    {
        matches!(self, DeathType::Alive)
    }

    pub fn is_spawning(self) -> (r: bool)
        ensures
            r == (self == DeathType::Spawning),
    {
        matches!(self, DeathType::Spawning)
    }
}

/// Kind of a floating alert shown by the client.
#[derive(Copy, Clone, Debug, PartialEq, Eq, Structural)]
pub enum FtlType {
    Message,
    Error,
    Item,
    Quest,
    Level,
    Money,
}

impl FtlType {
    /// The one-byte tag that stands for this kind on the wire.
    pub open spec fn spec_wire_tag(self) -> u8 {
        match self {
            FtlType::Message => 0,
            FtlType::Error => 1,
            FtlType::Item => 2,
            FtlType::Quest => 3,
            FtlType::Level => 4,
            FtlType::Money => 5,
        }
    }

    #[verifier::when_used_as_spec(spec_wire_tag)]
    pub fn wire_tag(self) -> (r: u8)
        ensures
            r == self.spec_wire_tag(),
    {
        match self {
            FtlType::Message => 0,
            FtlType::Error => 1,
            FtlType::Item => 2,
            FtlType::Quest => 3,
            FtlType::Level => 4,
            FtlType::Money => 5,
        }
    }
}

/// The vitals of a character; `Count` is the number of real vitals.
#[derive(Copy, Clone, Debug, PartialEq, Eq, Structural)]
pub enum VitalTypes {
    Hp,
    Mp,
    Sp,
    Count,
}

impl Default for VitalTypes {
    fn default() -> (r: Self)
        ensures
            r == VitalTypes::Count,
    {
        VitalTypes::Count
    }
}

} // verus!
