use crate::gametypes::enums::{DeathType, UserAccess};
use crate::gametypes::map_position::MapPosition;
use crate::gametypes::position::Position;
use vstd::prelude::*;

verus! {

/// The number of vitals that a character has.
pub const VITALS_MAX: usize = 3;

/// The record of a player as it is created at registration.
#[derive(Clone, Debug)]
pub struct Player {
    pub username: String,
    pub email: String,
    pub level_exp: u64,
    pub pvp_on: bool,
    pub pk: bool,
    pub code: String,
    pub vals: u64,
    pub sprite: u16,
    pub vital: [i32; 3],
    pub vital_max: [i32; 3],
    pub spawn: Position,
    pub dir: u8,
    pub level: i32,
    pub data: [i64; 10],
    pub access: UserAccess,
    pub pos: Position,
    pub death_type: DeathType,
    pub current_server: Option<String>,
    pub reset_count: i64,
}

impl Player {
    /// The record has the values that every new player starts with, whatever
    /// its name, its address, its sprite and its reconnect code.
    pub open spec fn has_starting_values(&self) -> bool {
        &&& self.level_exp == 0
        &&& !self.pvp_on
        &&& !self.pk
        &&& self.vals == 0
        &&& self.vital@ == seq![25i32, 2, 100]
        &&& self.vital_max@ == seq![25i32, 2, 100]
        &&& self.spawn == (Position { x: 0, y: 0, map: MapPosition { x: 0, y: 0, group: 0 } })
        &&& self.dir == 0
        &&& self.level == 1
        &&& self.data@ == Seq::new(10, |i: int| 0i64)
        &&& self.access == UserAccess::NoAccess
        &&& self.pos == (Position { x: 0, y: 0, map: MapPosition { x: 0, y: 0, group: 0 } })
        &&& self.death_type == DeathType::Alive
        &&& self.current_server is None
        &&& self.reset_count == 0
    }
}

impl Default for Player {
    fn default() -> (r: Player)
        ensures
            r.has_starting_values(),
            r.username@.len() == 0,
            r.email@.len() == 0,
            r.code@.len() == 0,
            r.sprite == 0,
    {
        let r = Player {
            username: String::new(),
            email: String::new(),
            level_exp: 0,
            pvp_on: false,
            pk: false,
            code: String::new(),
            vals: 0,
            sprite: 0,
            vital: [25, 2, 100],
            vital_max: [25, 2, 100],
            spawn: Position::new(0, 0, MapPosition::new(0, 0, 0)),
            dir: 0,
            level: 1,
            data: [0, 0, 0, 0, 0, 0, 0, 0, 0, 0],
            access: UserAccess::NoAccess,
            pos: Position::new(0, 0, MapPosition::new(0, 0, 0)),
            death_type: DeathType::Alive,
            current_server: None,
            reset_count: 0,
        };
        assert(r.vital@ =~= seq![25i32, 2, 100]);
        assert(r.vital_max@ =~= seq![25i32, 2, 100]);
        assert(r.data@ =~= Seq::new(10, |i: int| 0i64));
        r
    }
}

} // verus!
