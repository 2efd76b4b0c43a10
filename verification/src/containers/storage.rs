use crate::containers::directory::Directory;
use crate::containers::index_set::IndexSet;
use crate::containers::tokens::{RotatableJwtKey, RotatableKey, KEY_LENGTH};
use crate::socket::game_server::SocketPollState;
use crate::socket::poll::{PollRequest, PollRequestKind, PollRequests};
use crate::socket::server::{Server, CLIENT_SERVER, GAME_SERVER};
use vstd::prelude::*;

verus! {

/// What a game server publishes about itself.
#[derive(Clone, Debug)]
pub struct GameServerInfo {
    pub name: String,
    pub ip: String,
    pub port: u16,
    pub players_on: u64,
    pub max_players: u64,
}

/// The mathematical value of a [`GameServerInfo`].
pub struct GameServerInfoView {
    pub name: Seq<char>,
    pub ip: Seq<char>,
    pub port: u16,
    pub players_on: u64,
    pub max_players: u64,
}

impl View for GameServerInfo {
    type V = GameServerInfoView;

    open spec fn view(&self) -> GameServerInfoView {
        GameServerInfoView {
            name: self.name@,
            ip: self.ip@,
            port: self.port,
            players_on: self.players_on,
            max_players: self.max_players,
        }
    }
}

impl GameServerInfo {
    /// A copy with the same value.
    pub fn duplicate(&self) -> (r: GameServerInfo)
        ensures
            r@ == self@,
    {
        GameServerInfo {
            name: self.name.clone(),
            ip: self.ip.clone(),
            port: self.port,
            players_on: self.players_on,
            max_players: self.max_players,
        }
    }
}

/// The payload of a signed token: the server a player was admitted to, and the player.
#[derive(Clone, Debug)]
pub struct UserClaim {
    pub server_name: String,
    pub uid: i64,
}

impl View for UserClaim {
    type V = (Seq<char>, i64);

    open spec fn view(&self) -> (Seq<char>, i64) {
        (self.server_name@, self.uid)
    }
}

/// How much the broker logs.
#[derive(Debug, Copy, Clone, PartialEq, Eq, Structural)]
pub enum ServerLevelFilter {
    /// A level lower than all log levels.
    Off,
    /// Corresponds to the `Error` log level.
    Error,
    /// Corresponds to the `Warn` log level.
    Warn,
    /// Corresponds to the `Info` log level.
    Info,
    /// Corresponds to the `Debug` log level.
    Debug,
    /// Corresponds to the `Trace` log level.
    Trace,
}

/// The level filter of `log`, with its six levels.
#[verifier::external_type_specification]
pub struct ExLevelFilter(log::LevelFilter);

impl ServerLevelFilter {
    /// The level filter of the logging backend that stands for this setting.
    pub fn parse_enum(&self) -> (r: log::LevelFilter)
        ensures
            r == match *self {
                ServerLevelFilter::Off => log::LevelFilter::Off,
                ServerLevelFilter::Error => log::LevelFilter::Error,
                ServerLevelFilter::Warn => log::LevelFilter::Warn,
                ServerLevelFilter::Info => log::LevelFilter::Info,
                ServerLevelFilter::Debug => log::LevelFilter::Debug,
                ServerLevelFilter::Trace => log::LevelFilter::Trace,
            },
    {
        match self {
            ServerLevelFilter::Off => log::LevelFilter::Off,
            ServerLevelFilter::Error => log::LevelFilter::Error,
            ServerLevelFilter::Warn => log::LevelFilter::Warn,
            ServerLevelFilter::Info => log::LevelFilter::Info,
            ServerLevelFilter::Debug => log::LevelFilter::Debug,
            ServerLevelFilter::Trace => log::LevelFilter::Trace,
        }
    }
}

/// The broker's settings.
#[derive(Debug)]
pub struct Config {
    pub listen: String,
    pub clients_port: u16,
    pub servers_port: u16,
    pub server_cert: String,
    pub server_key: String,
    pub ca_root: String,
    pub maxconnections: usize,
    pub database: String,
    pub username: String,
    pub password: String,
    pub host: String,
    pub port: u16,
    pub enable_backtrace: bool,
    pub level_filter: ServerLevelFilter,
}

/// Everything the broker keeps between two frames: the directory of game
/// servers, the connections with frames to dispatch, the requests to the
/// readiness source, the registry of connections, the settings and the
/// signing keys.
pub struct Storage {
    pub servers: Directory,
    pub client_ids: IndexSet,
    pub servers_ids: IndexSet,
    pub poll: PollRequests,
    pub server: Server,
    pub config: Config,
    pub keys: RotatableJwtKey,
}

impl Storage {
    /// Every part is well-formed.
    pub open spec fn wf(&self) -> bool {
        &&& self.servers.wf()
        &&& self.client_ids.wf()
        &&& self.servers_ids.wf()
        &&& self.server.wf()
        &&& self.keys.wf()
    }

    /// Every entry of the directory belongs to a game server that is connected.
    pub open spec fn directory_is_live(&self) -> bool {
        forall|i: int|
            0 <= i < self.servers.ids().len() ==> self.server.game_servers@.contains_key(
                #[trigger] self.servers.ids()[i],
            )
    }

    /// `after` is this state but for the requests to the readiness source.
    pub open spec fn differs_in_poll(&self, after: &Storage) -> bool {
        &&& after.servers == self.servers
        &&& after.client_ids == self.client_ids
        &&& after.servers_ids == self.servers_ids
        &&& after.server == self.server
        &&& after.config == self.config
        &&& after.keys == self.keys
    }

    /// `after` is this state, with the same requests to the readiness source.
    pub open spec fn same_as(&self, after: &Storage) -> bool {
        self.differs_in_poll(after) && after.poll@ == self.poll@
    }

    /// `after` is this state but for the directory.
    pub open spec fn differs_in_directory(&self, after: &Storage) -> bool {
        &&& after.poll == self.poll
        &&& after.client_ids == self.client_ids
        &&& after.servers_ids == self.servers_ids
        &&& after.server == self.server
        &&& after.config == self.config
        &&& after.keys == self.keys
    }

    /// The signing keys of a state that was made, if one was.
    pub open spec fn keys_of(r: Option<Storage>) -> Option<RotatableJwtKey> {
        match r {
            Some(s) => Some(s.keys),
            None => None,
        }
    }

    /// The state of a broker that has just started: an empty directory, no
    /// connections, fresh signing keys of [`KEY_LENGTH`] characters, as
    /// [`RotatableJwtKey::new`] makes them, and the two listeners asked to be
    /// watched for reads. The two ports of `config` must differ. There
    /// always is such a state.
    pub fn new(config: Config) -> (r: Option<Storage>)
        requires
            config.clients_port != config.servers_port,
        ensures
            r is Some,
            exists|first: Seq<char>, second: Seq<char>, now: i64|
                #[trigger] RotatableJwtKey::made_of(Self::keys_of(r), first, second, now)
                    && RotatableKey::drawn(first, KEY_LENGTH) && RotatableKey::drawn(
                    second,
                    KEY_LENGTH,
                ),
            r matches Some(s) ==> s.directory_is_live(),
            r matches Some(s) ==> s.wf() && s.config == config && s.servers.ids().len() == 0
                && s.servers.is_inverse() && s.client_ids@.len() == 0 && s.servers_ids@.len() == 0
                && s.server.tokens@ == Server::fresh_pool(config.maxconnections)
                && s.server.clients@.len() == 0 && s.server.game_servers@.len() == 0
                && s.keys.active_slot() == 0,
            r matches Some(s) ==> s.poll@ == seq![
                PollRequest {
                    token: CLIENT_SERVER,
                    kind: PollRequestKind::Register,
                    interest: SocketPollState::Read,
                },
                PollRequest {
                    token: GAME_SERVER,
                    kind: PollRequestKind::Register,
                    interest: SocketPollState::Read,
                },
            ],
    {
        let mut poll = PollRequests::new();
        let server = Server::new(
            &mut poll,
            config.clients_port,
            config.servers_port,
            config.maxconnections,
        );
        assert(poll@ =~= seq![
            PollRequest {
                token: CLIENT_SERVER,
                kind: PollRequestKind::Register,
                interest: SocketPollState::Read,
            },
            PollRequest {
                token: GAME_SERVER,
                kind: PollRequestKind::Register,
                interest: SocketPollState::Read,
            },
        ]);
        let made = RotatableJwtKey::new(KEY_LENGTH);
        let ghost (first, second, now) = choose|first: Seq<char>, second: Seq<char>, now: i64|
            #[trigger] RotatableJwtKey::made_of(made, first, second, now) && RotatableKey::drawn(
                first,
                KEY_LENGTH,
            ) && RotatableKey::drawn(second, KEY_LENGTH);
        let r = match made {
            Some(keys) => Some(
                Storage {
                    servers: Directory::new(),
                    client_ids: IndexSet::new(),
                    servers_ids: IndexSet::new(),
                    poll,
                    server,
                    config,
                    keys,
                },
            ),
            None => None,
        };
        proof {
            assert(Self::keys_of(r) == made);
            assert(RotatableJwtKey::made_of(Self::keys_of(r), first, second, now)
                && RotatableKey::drawn(first, KEY_LENGTH) && RotatableKey::drawn(
                second,
                KEY_LENGTH,
            ));
        }
        r
    }
}

} // verus!
