use crate::containers::storage::{GameServerInfo, GameServerInfoView, Storage, UserClaim};
use crate::containers::tokens::{alphanumeric, random_alphanumeric, token_of};
use crate::gametypes::error::AscendingError;
use crate::gametypes::rules::{
    all_name_acceptable, all_password_acceptable, client_outdated, is_client_outdated, name_chars,
    password_chars, MAX_NAME_LENGTH, MAX_PASSWORD_LENGTH, RECONNECT_CODE_LENGTH, SPRITE_COUNT,
};
use crate::players::player::Player;
use crate::socket::buffer::{lemma_encoded_length, payload_fits, 
    bb_bytes, bb_cursor, bb_room, frame_bytes, is_buffer_fault, read_u16, read_u64, read_u8, str_at,
    u16_at, u64_at, u8_at, ByteBufferExt,
};
use crate::socket::client::Client;
use crate::socket::game_server::{GameServer, SocketState};
use crate::socket::sends::{
    alert_payload, login_payload, send_infomsg, send_login, send_server_list, send_settled,
    send_verification, verification_payload,
};
use crate::sql::playerstruct::PlayerWithPassword;
use crate::socket::sends::{
    kill_client_payload, send_kill_client, server_list_frames, server_list_pages,
};
use crate::sql::queries::{
    argon2_accepts, check_existance, existence_code, find_player, new_player, stored_password,
    Check,
};
use regex::Regex;
use vstd::std_specs::hash::*;
use vstd::string::StringSliceAdditionalSpecFns;
use vstd::utf8::*;
use bytey_byte_buffer::byte_buffer::ByteBuffer;
use vstd::prelude::*;

verus! {

/// What a game server announces of itself, as read at `cursor`: its name,
/// its address, its port and its two player counts.
pub open spec fn server_info_at(bytes: Seq<u8>, cursor: int) -> Option<GameServerInfoView> {
    match str_at(bytes, cursor) {
        None => None,
        Some((name, at_ip)) => match str_at(bytes, at_ip) {
            None => None,
            Some((ip, at_port)) => match (
                u16_at(bytes, at_port),
                u64_at(bytes, at_port + 2),
                u64_at(bytes, at_port + 10),
            ) {
                (Some(port), Some(players_on), Some(max_players)) => Some(
                    GameServerInfoView { name, ip, port, players_on, max_players },
                ),
                _ => None,
            },
        },
    }
}

/// The two player counts that a game server reports, as read at `cursor`.
pub open spec fn server_count_at(bytes: Seq<u8>, cursor: int) -> Option<(u64, u64)> {
    match (u64_at(bytes, cursor), u64_at(bytes, cursor + 8)) {
        (Some(players_on), Some(max_players)) => Some((players_on, max_players)),
        _ => None,
    }
}

impl Storage {
    /// What is answered to the game server `id` that asks whether `token` is
    /// good: the player of the claim and `true`, where one of the two keys
    /// accepts the token and the claim names the server as the directory
    /// knows it; 0 and `false` otherwise.
    pub open spec fn verdict(&self, id: usize, token: Seq<char>) -> (i64, bool) {
        match (self.keys.decoded(token), self.servers.info_of(id)) {
            (Some((_, claim)), Some(info)) => if claim.0 == info.name {
                (claim.1, true)
            } else {
                (0, false)
            },
            _ => (0, false),
        }
    }
}

/// What [`handle_verification`] does with the frame `frame`, read from its
/// second part on: the token is read, and the verdict on it is sent to the
/// game server. A token that cannot be read is a fault of the frame. Where
/// the answer cannot be sent because no buffer can be had for its frame,
/// nothing changes and the answer is that fault. What is sent to a closed
/// game server is dropped, which always succeeds.
pub open spec fn verification_handled(
    before: (Storage, GameServer),
    frame: (Seq<u8>, int),
    after: (Storage, GameServer),
    r: Result<(), AscendingError>,
) -> bool {
    &&& before.0.differs_in_poll(&after.0)
    &&& str_at(frame.0, frame.1) is None ==> is_buffer_fault(r)
    &&& r is Err ==> after.1 == before.1 && after.0.poll@ == before.0.poll@
    &&& r is Err ==> is_buffer_fault(r)
    &&& str_at(frame.0, frame.1) is Some && before.1.state == SocketState::Closed ==> r is Ok
    &&& r is Ok ==> match str_at(frame.0, frame.1) {
        None => false,
        Some((token, _)) => {
            let (uid, verified) = before.0.verdict(before.1.token, token);
            &&& before.1.queued(&after.1, frame_bytes(verification_payload(uid, verified)))
            &&& after.0.poll@ == before.1.asked_to_write(&after.1, before.0.poll@)
        },
    }
}

/// Answers a game server that asks whether a token is good.
pub fn handle_verification(
    storage: &mut Storage,
    data: &mut ByteBuffer,
    game_server: &mut GameServer,
) -> (r: Result<(), AscendingError>)
    requires
        old(storage).wf(),
        old(game_server).wf(),
    ensures
        final(storage).wf(),
        final(game_server).wf(),
        bb_bytes(*final(data)) == bb_bytes(*old(data)),
        bb_room(*final(data)) == bb_room(*old(data)),
        verification_handled(
            (*old(storage), *old(game_server)),
            (bb_bytes(*old(data)), bb_cursor(*old(data)) as int),
            (*final(storage), *final(game_server)),
            r,
        ),
{
    let token = match data.read_str() {
        Ok(token) => token,
        Err(e) => return Err(e),
    };
    match storage.keys.decode(token.as_str()) {
        Some((_index, claim)) => {
            match storage.servers.get(game_server.token) {
                Some(server) => {
                    if claim.server_name == server.name {
                        return send_verification(storage, game_server, claim.uid, true);
                    }
                },
                None => {},
            }
        },
        None => {},
    }
    send_verification(storage, game_server, 0, false)
}

/// What [`handle_update_server_info`] does with the frame `frame`, read from
/// its second part on: what the game server announces is written as its
/// entry of the directory. An announcement that cannot be read in full is a
/// fault of the frame and changes nothing.
///
/// Where no other entry bears the name announced, a name index that was the
/// exact inverse of the entries is so afterwards.
pub open spec fn server_info_handled(
    before: (Storage, GameServer),
    frame: (Seq<u8>, int),
    after: (Storage, GameServer),
    r: Result<(), AscendingError>,
) -> bool {
    &&& after.1 == before.1
    &&& before.0.differs_in_directory(&after.0)
    &&& match server_info_at(frame.0, frame.1) {
        None => is_buffer_fault(r) && after.0.servers == before.0.servers,
        Some(info) => {
            &&& r is Ok
            &&& before.0.servers.info_written(&after.0.servers, before.1.token, info)
            &&& before.0.servers.is_inverse() && before.0.servers.name_is_free_for(
                before.1.token,
                info.name,
            ) ==> after.0.servers.is_inverse()
        },
    }
}

/// Takes in what a game server announces of itself, and writes it as the
/// server's entry of the directory.
pub fn handle_update_server_info(
    storage: &mut Storage,
    data: &mut ByteBuffer,
    game_server: &mut GameServer,
) -> (r: Result<(), AscendingError>)
    requires
        old(storage).wf(),
    ensures
        final(storage).wf(),
        bb_bytes(*final(data)) == bb_bytes(*old(data)),
        bb_room(*final(data)) == bb_room(*old(data)),
        server_info_handled(
            (*old(storage), *old(game_server)),
            (bb_bytes(*old(data)), bb_cursor(*old(data)) as int),
            (*final(storage), *final(game_server)),
            r,
        ),
{
    let name = match data.read_str() {
        Ok(v) => v,
        Err(e) => return Err(e),
    };
    let ip = match data.read_str() {
        Ok(v) => v,
        Err(e) => return Err(e),
    };
    let port = match read_u16(data) {
        Ok(v) => v,
        Err(e) => return Err(e),
    };
    let players_on = match read_u64(data) {
        Ok(v) => v,
        Err(e) => return Err(e),
    };
    let max_players = match read_u64(data) {
        Ok(v) => v,
        Err(e) => return Err(e),
    };
    storage.servers.update_info(
        game_server.token,
        GameServerInfo { name, ip, port, players_on, max_players },
    );
    Ok(())
}

/// What [`handle_update_server_count`] does with the frame `frame`, read
/// from its second part on: the two player counts are written into the
/// game server's entry of the directory, where it has one. Counts that
/// cannot be read in full are a fault of the frame and change nothing.
pub open spec fn server_count_handled(
    before: (Storage, GameServer),
    frame: (Seq<u8>, int),
    after: (Storage, GameServer),
    r: Result<(), AscendingError>,
) -> bool {
    &&& after.1 == before.1
    &&& before.0.differs_in_directory(&after.0)
    &&& match server_count_at(frame.0, frame.1) {
        None => is_buffer_fault(r) && after.0.servers == before.0.servers,
        Some((players_on, max_players)) => {
            &&& r is Ok
            &&& before.0.servers.count_written(
                &after.0.servers,
                before.1.token,
                players_on,
                max_players,
            )
            &&& before.0.servers.is_inverse() ==> after.0.servers.is_inverse()
        },
    }
}

/// Takes in the player counts that a game server reports, and writes them
/// into the server's entry of the directory, where it has one.
pub fn handle_update_server_count(
    storage: &mut Storage,
    data: &mut ByteBuffer,
    game_server: &mut GameServer,
) -> (r: Result<(), AscendingError>)
    requires
        old(storage).wf(),
    ensures
        final(storage).wf(),
        bb_bytes(*final(data)) == bb_bytes(*old(data)),
        bb_room(*final(data)) == bb_room(*old(data)),
        server_count_handled(
            (*old(storage), *old(game_server)),
            (bb_bytes(*old(data)), bb_cursor(*old(data)) as int),
            (*final(storage), *final(game_server)),
            r,
        ),
{
    let players_on = match read_u64(data) {
        Ok(v) => v,
        Err(e) => return Err(e),
    };
    let max_players = match read_u64(data) {
        Ok(v) => v,
        Err(e) => return Err(e),
    };
    storage.servers.update_count(game_server.token, players_on, max_players);
    Ok(())
}

/// The pattern that an e-mail address must match from its start.
pub const EMAIL_PATTERN: &'static str =
    "^([a-z0-9_+]([a-z0-9_+.]*[a-z0-9_+])?)@([a-z0-9]+([\\-\\.]{1}[a-z0-9]+)*\\.[a-z]{2,6})";

/// Whether `regex` compiles `pattern`, under its default limits.
pub uninterp spec fn regex_compiles(pattern: Seq<char>) -> bool;

/// Whether `regex` finds a match of `pattern` in `text`; `false` where
/// `pattern` is no pattern.
pub uninterp spec fn regex_matches(pattern: Seq<char>, text: Seq<char>) -> bool;

/// `Regex::is_match` of `regex`, on the expression that `Regex::new` compiles
/// from `pattern`. Claims that whether the pattern compiles depends on the
/// pattern alone, and that the answer depends on the pattern and the text
/// alone. Nothing is claimed of which patterns compile.
#[verifier::external_body]
fn pattern_matches(pattern: &str, text: &str) -> (r: Result<bool, regex::Error>)
    ensures
        r is Ok <==> regex_compiles(pattern@),
        r matches Ok(found) ==> found == regex_matches(pattern@, text@),
{
    match Regex::new(pattern) {
        Ok(expression) => Ok(expression.is_match(text)),
        Err(e) => Err(e),
    }
}

/// Why a request of a client is turned down.
#[derive(Debug, Copy, Clone, PartialEq, Eq, Structural)]
pub enum Rejection {
    Outdated,
    BadCharacters,
    UsernameTooLong,
    PasswordTooLong,
    BadEmail,
    UsernameTaken,
    EmailTaken,
    CreationFailed,
    NoAccount,
    NoRelogin,
}

impl Rejection {
    /// What the client is told.
    pub open spec fn text(self) -> Seq<char> {
        match self {
            Rejection::Outdated => "Client needs to be updated."@,
            Rejection::BadCharacters => "Username or Password contains unaccepted Characters"@,
            Rejection::UsernameTooLong => "Username has too many Characters, 64 Characters Max"@,
            Rejection::PasswordTooLong => "Password has too many Characters, 128 Characters Max"@,
            Rejection::BadEmail => "Email must be an actual email."@,
            Rejection::UsernameTaken => "Username Exists. Please try Another."@,
            Rejection::EmailTaken => "Email Already Exists. Please Try Another."@,
            Rejection::CreationFailed => "There was an Issue Creating the player account. Please Contact Support."@,
            Rejection::NoAccount => "Account does not Exist or Password is not Correct."@,
            Rejection::NoRelogin => "Account logged in. Could not Verify Relogin Code."@,
        }
    }

    /// What the client is told.
    pub fn message(self) -> (r: &'static str)
        ensures
            r@ == self.text(),
    {
        match self {
            Rejection::Outdated => "Client needs to be updated.",
            Rejection::BadCharacters => "Username or Password contains unaccepted Characters",
            Rejection::UsernameTooLong => "Username has too many Characters, 64 Characters Max",
            Rejection::PasswordTooLong => "Password has too many Characters, 128 Characters Max",
            Rejection::BadEmail => "Email must be an actual email.",
            Rejection::UsernameTaken => "Username Exists. Please try Another.",
            Rejection::EmailTaken => "Email Already Exists. Please Try Another.",
            Rejection::CreationFailed => "There was an Issue Creating the player account. Please Contact Support.",
            Rejection::NoAccount => "Account does not Exist or Password is not Correct.",
            Rejection::NoRelogin => "Account logged in. Could not Verify Relogin Code.",
        }
    }
}

/// What a client sends to register.
#[derive(Debug)]
pub struct RegisterRequest {
    pub username: String,
    pub password: String,
    pub email: String,
    pub sprite_id: u8,
    pub appmajor: usize,
    pub appminor: usize,
    pub apprevision: usize,
    pub server_name: String,
}

/// The mathematical value of a [`RegisterRequest`].
pub struct RegisterRequestView {
    pub username: Seq<char>,
    pub password: Seq<char>,
    pub email: Seq<char>,
    pub sprite_id: u8,
    pub appmajor: usize,
    pub appminor: usize,
    pub apprevision: usize,
    pub server_name: Seq<char>,
}

impl View for RegisterRequest {
    type V = RegisterRequestView;

    open spec fn view(&self) -> RegisterRequestView {
        RegisterRequestView {
            username: self.username@,
            password: self.password@,
            email: self.email@,
            sprite_id: self.sprite_id,
            appmajor: self.appmajor,
            appminor: self.appminor,
            apprevision: self.apprevision,
            server_name: self.server_name@,
        }
    }
}

/// The three parts of a version, as read at `cursor`.
pub open spec fn version_at(bytes: Seq<u8>, cursor: int) -> Option<(usize, usize, usize)> {
    match (u16_at(bytes, cursor), u16_at(bytes, cursor + 2), u16_at(bytes, cursor + 4)) {
        (Some(major), Some(minor), Some(revision)) => Some(
            (major as usize, minor as usize, revision as usize),
        ),
        _ => None,
    }
}

/// The registration that is read at `cursor`: user name, password, e-mail
/// address, sprite, version, and the name of the server the player wants to play on.
pub open spec fn register_request_at(bytes: Seq<u8>, cursor: int) -> Option<RegisterRequestView> {
    match str_at(bytes, cursor) {
        None => None,
        Some((username, at_password)) => match str_at(bytes, at_password) {
            None => None,
            Some((password, at_email)) => match str_at(bytes, at_email) {
                None => None,
                Some((email, at_sprite)) => match (
                    u8_at(bytes, at_sprite),
                    version_at(bytes, at_sprite + 1),
                    str_at(bytes, at_sprite + 7),
                ) {
                    (Some(sprite_id), Some(version), Some((server_name, _))) => Some(
                        RegisterRequestView {
                            username,
                            password,
                            email,
                            sprite_id,
                            appmajor: version.0,
                            appminor: version.1,
                            apprevision: version.2,
                            server_name,
                        },
                    ),
                    _ => None,
                },
            },
        },
    }
}

/// Why a registration is turned down before the store is asked, if it is;
/// `email_ok` tells whether the e-mail address matches [`EMAIL_PATTERN`].
/// The first reason that applies is given.
pub open spec fn registration_fault(request: RegisterRequestView, email_ok: bool) -> Option<
    Rejection,
> {
    if client_outdated(request.appmajor, request.appminor, request.apprevision) {
        Some(Rejection::Outdated)
    } else if !name_chars(request.username) || !password_chars(request.password) {
        Some(Rejection::BadCharacters)
    } else if encode_utf8(request.username).len() >= MAX_NAME_LENGTH {
        Some(Rejection::UsernameTooLong)
    } else if encode_utf8(request.password).len() >= MAX_PASSWORD_LENGTH {
        Some(Rejection::PasswordTooLong)
    } else if !email_ok || request.sprite_id >= SPRITE_COUNT {
        Some(Rejection::BadEmail)
    } else {
        None
    }
}

/// Why a registration is turned down before the store is asked, if it is.
pub fn check_registration(request: &RegisterRequest, email_ok: bool) -> (r: Option<Rejection>)
    ensures
        r == registration_fault(request@, email_ok),
{
    if is_client_outdated(request.appmajor, request.appminor, request.apprevision) {
        Some(Rejection::Outdated)
    } else if !all_name_acceptable(request.username.as_str()) || !all_password_acceptable(
        request.password.as_str(),
    ) {
        Some(Rejection::BadCharacters)
    } else if request.username.as_str().as_bytes().len() >= MAX_NAME_LENGTH {
        Some(Rejection::UsernameTooLong)
    } else if request.password.as_str().as_bytes().len() >= MAX_PASSWORD_LENGTH {
        Some(Rejection::PasswordTooLong)
    } else if !email_ok || request.sprite_id >= SPRITE_COUNT {
        Some(Rejection::BadEmail)
    } else {
        None
    }
}

/// What a handler of a client's frame needs from the player store before it
/// can go on, if anything.
#[derive(Debug)]
#[allow(inconsistent_fields)]
pub enum ClientStep {
    /// The frame has been dealt with.
    Done,
    /// Ask the store whether the user name and the e-mail address of the
    /// request are taken, and hand the answer to [`handle_register_existence`].
    CheckExistence { request: RegisterRequest },
    /// Create `player` in the store, for the address of the client and with
    /// `hashed_password`, and hand the new identifier to [`handle_register_created`].
    CreatePlayer { player: Player, hashed_password: String, server_name: String },
    /// Fetch the row of the player with the e-mail address of the request,
    /// and hand it to [`handle_login_found`].
    FindPlayer { request: LoginRequest },
    /// Store `code` as the reconnect code of the player `uid`, and hand the
    /// outcome to [`handle_login_stored`].
    StoreReconnectCode { uid: i64, code: String, token: String },
}

/// What a client sends to log in.
#[derive(Debug)]
pub struct LoginRequest {
    pub email: String,
    pub password: String,
    pub appmajor: usize,
    pub appminor: usize,
    pub apprevision: usize,
    pub reconnect_code: String,
    pub server_name: String,
}

/// The mathematical value of a [`LoginRequest`].
pub struct LoginRequestView {
    pub email: Seq<char>,
    pub password: Seq<char>,
    pub appmajor: usize,
    pub appminor: usize,
    pub apprevision: usize,
    pub reconnect_code: Seq<char>,
    pub server_name: Seq<char>,
}

impl View for LoginRequest {
    type V = LoginRequestView;

    open spec fn view(&self) -> LoginRequestView {
        LoginRequestView {
            email: self.email@,
            password: self.password@,
            appmajor: self.appmajor,
            appminor: self.appminor,
            apprevision: self.apprevision,
            reconnect_code: self.reconnect_code@,
            server_name: self.server_name@,
        }
    }
}

/// The handler has dealt with the frame and needs nothing from the store.
pub open spec fn is_done(r: Result<ClientStep, AscendingError>) -> bool {
    r matches Ok(ClientStep::Done)
}

/// `after` is `before` with a frame of `payload` sent to the client.
pub open spec fn replied(
    before: (Storage, Client),
    after: (Storage, Client),
    payload: Seq<u8>,
) -> bool {
    &&& before.1.queued(&after.1, frame_bytes(payload))
    &&& before.0.differs_in_poll(&after.0)
    &&& after.0.poll@ == before.1.asked_to_write(&after.1, before.0.poll@)
}

/// `after` is `before`: neither the broker's state nor the client has changed.
pub open spec fn unchanged(before: (Storage, Client), after: (Storage, Client)) -> bool {
    &&& after.1 == before.1
    &&& before.0.same_as(&after.0)
}

/// `after` is `before` with the client told that its request is turned down
/// for `reason`, and to close the connection.
pub open spec fn turned_down(
    before: (Storage, Client),
    after: (Storage, Client),
    reason: Rejection,
) -> bool {
    &&& before.1.queued_with(&after.1, frame_bytes(alert_payload(reason.text(), true)), true)
    &&& before.0.differs_in_poll(&after.0)
    &&& after.0.poll@ == before.1.asked_to_write(&after.1, before.0.poll@)
}

/// Tells `client` that its request is turned down for `reason`, and to close
/// the connection: it sends the alert, as [`send_infomsg`] does, and the
/// frame is then dealt with. What is told to a closed client is dropped,
/// which always succeeds; otherwise it fails only where no buffer can be
/// had for the frame, and that changes nothing.
pub fn turn_down(storage: &mut Storage, client: &mut Client, reason: Rejection) -> (r: Result<
    ClientStep,
    AscendingError,
>)
    requires
        old(client).wf(),
    ensures
        final(client).wf(),
        told_turned_down(
            (*old(storage), *old(client)),
            (*final(storage), *final(client)),
            r,
            reason,
        ),
{
    proof {
        lemma_rejection_fits(reason);
    }
    match send_infomsg(storage, client, reason.message().to_owned(), true) {
        Ok(()) => Ok(ClientStep::Done),
        Err(e) => Err(e),
    }
}

/// Every reason is told in a text that one frame can carry.
pub proof fn lemma_rejection_fits(reason: Rejection)
    ensures
        payload_fits(alert_payload(reason.text(), true)),
{
    reveal_strlit("Client needs to be updated.");
    reveal_strlit("Username or Password contains unaccepted Characters");
    reveal_strlit("Username has too many Characters, 64 Characters Max");
    reveal_strlit("Password has too many Characters, 128 Characters Max");
    reveal_strlit("Email must be an actual email.");
    reveal_strlit("Username Exists. Please try Another.");
    reveal_strlit("Email Already Exists. Please Try Another.");
    reveal_strlit("There was an Issue Creating the player account. Please Contact Support.");
    reveal_strlit("Account does not Exist or Password is not Correct.");
    reveal_strlit("Account logged in. Could not Verify Relogin Code.");
    lemma_encoded_length(reason.text());
    vstd::bytes::lemma_auto_spec_u64_to_from_le_bytes();
}

/// What [`handle_register`] does with the frame `frame`, read from its
/// second part on.
///
/// A registration that cannot be read in full is a fault of the frame. One
/// from an outdated client is turned down. Otherwise the e-mail address is
/// held against [`EMAIL_PATTERN`]; where that is no pattern, that is the
/// error. Where it is, the registration is turned down for the first reason
/// that [`registration_fault`] finds; where it finds none, the store is to
/// be asked whether the name and the address are taken, and that always
/// succeeds. A registration is turned down as [`told_turned_down`] says.
/// An error changes nothing.
pub open spec fn register_handled(
    before: (Storage, Client),
    frame: (Seq<u8>, int),
    after: (Storage, Client),
    r: Result<ClientStep, AscendingError>,
) -> bool {
    &&& r is Err ==> unchanged(before, after)
    &&& match register_request_at(frame.0, frame.1) {
        None => is_buffer_fault(r),
        Some(request) => if client_outdated(
            request.appmajor,
            request.appminor,
            request.apprevision,
        ) {
            told_turned_down(before, after, r, Rejection::Outdated)
        } else if !regex_compiles(EMAIL_PATTERN@) {
            r matches Err(AscendingError::RegexError { .. })
        } else {
            match registration_fault(request, regex_matches(EMAIL_PATTERN@, request.email)) {
                Some(reason) => told_turned_down(before, after, r, reason),
                None => {
                    &&& r matches Ok(ClientStep::CheckExistence { request: read })
                    &&& read@ == request
                    &&& unchanged(before, after)
                },
            }
        },
    }
}

/// Reads a registration and decides what is done with it.
pub fn handle_register(storage: &mut Storage, data: &mut ByteBuffer, client: &mut Client) -> (r:
    Result<ClientStep, AscendingError>)
    requires
        old(client).wf(),
    ensures
        final(client).wf(),
        bb_bytes(*final(data)) == bb_bytes(*old(data)),
        bb_room(*final(data)) == bb_room(*old(data)),
        register_handled(
            (*old(storage), *old(client)),
            (bb_bytes(*old(data)), bb_cursor(*old(data)) as int),
            (*final(storage), *final(client)),
            r,
        ),
{
    let username = match data.read_str() {
        Ok(v) => v,
        Err(e) => return Err(e),
    };
    let password = match data.read_str() {
        Ok(v) => v,
        Err(e) => return Err(e),
    };
    let email = match data.read_str() {
        Ok(v) => v,
        Err(e) => return Err(e),
    };
    let sprite_id = match read_u8(data) {
        Ok(v) => v,
        Err(e) => return Err(e),
    };
    let appmajor = match read_u16(data) {
        Ok(v) => v as usize,
        Err(e) => return Err(e),
    };
    let appminor = match read_u16(data) {
        Ok(v) => v as usize,
        Err(e) => return Err(e),
    };
    let apprevision = match read_u16(data) {
        Ok(v) => v as usize,
        Err(e) => return Err(e),
    };
    let server_name = match data.read_str() {
        Ok(v) => v,
        Err(e) => return Err(e),
    };
    let request = RegisterRequest {
        username,
        password,
        email,
        sprite_id,
        appmajor,
        appminor,
        apprevision,
        server_name,
    };
    if is_client_outdated(request.appmajor, request.appminor, request.apprevision) {
        return turn_down(storage, client, Rejection::Outdated);
    }
    let email_ok = match pattern_matches(EMAIL_PATTERN, request.email.as_str()) {
        Ok(found) => found,
        Err(error) => return Err(AscendingError::RegexError { error }),
    };
    match check_registration(&request, email_ok) {
        Some(reason) => turn_down(storage, client, reason),
        None => Ok(ClientStep::CheckExistence { request }),
    }
}

/// The record of a new player is made for `request` with the reconnect code
/// `code`: it bears the name, the address and the sprite of the request and
/// the code, and has the values that every new player starts with.
pub open spec fn player_made_for(player: Player, request: RegisterRequestView) -> bool {
    &&& player.username@ == request.username
    &&& player.email@ == request.email
    &&& player.sprite == request.sprite_id as u16
    &&& player.code@.len() == RECONNECT_CODE_LENGTH
    &&& forall|i: int| 0 <= i < player.code@.len() ==> alphanumeric(#[trigger] player.code@[i])
    &&& player.has_starting_values()
}

/// What [`handle_register_existence`] does with the answer of the store:
/// `existence` is 0 where the name and the address of `request` are free, 1
/// where the name is taken and 2 where the address is.
///
/// Where both are free, a player is to be created, with a fresh reconnect
/// code and the hash of the password. Where one is taken, the registration
/// is turned down. Any other answer, and a failure of the store, is an
/// error. An error changes nothing.
pub open spec fn existence_handled(
    before: (Storage, Client),
    request: RegisterRequestView,
    existence: Result<i64, AscendingError>,
    after: (Storage, Client),
    r: Result<ClientStep, AscendingError>,
) -> bool {
    &&& r is Err ==> unchanged(before, after)
    &&& match existence {
        Err(_) => r matches Err(AscendingError::UserNotFound),
        Ok(found) => if found == 0 {
            &&& r matches Ok(ClientStep::CreatePlayer { player, hashed_password, server_name })
            &&& player_made_for(player, request)
            &&& hashed_password@ == stored_password(encode_utf8(request.password))
            &&& server_name@ == request.server_name
            &&& unchanged(before, after)
        } else if found == 1 {
            told_turned_down(before, after, r, Rejection::UsernameTaken)
        } else if found == 2 {
            told_turned_down(before, after, r, Rejection::EmailTaken)
        } else {
            r matches Err(AscendingError::RegisterFail)
        },
    }
}

/// Goes on with a registration once the store has said whether the name and
/// the address are taken.
pub fn handle_register_existence(
    storage: &mut Storage,
    client: &mut Client,
    request: RegisterRequest,
    existence: Result<i64, AscendingError>,
) -> (r: Result<ClientStep, AscendingError>)
    requires
        old(client).wf(),
    ensures
        final(client).wf(),
        existence_handled(
            (*old(storage), *old(client)),
            request@,
            existence,
            (*final(storage), *final(client)),
            r,
        ),
{
    match existence {
        Ok(0) => {},
        Ok(1) => return turn_down(storage, client, Rejection::UsernameTaken),
        Ok(2) => return turn_down(storage, client, Rejection::EmailTaken),
        Ok(_) => return Err(AscendingError::RegisterFail),
        Err(_) => return Err(AscendingError::UserNotFound),
    }
    let code = random_alphanumeric(RECONNECT_CODE_LENGTH);
    let mut player = Player::default();
    player.username = request.username;
    player.email = request.email;
    player.sprite = request.sprite_id as u16;
    player.code = code;
    let hashed_password = new_player(request.password.as_str());
    Ok(ClientStep::CreatePlayer { player, hashed_password, server_name: request.server_name })
}

/// What [`handle_register_created`] does once the store has created the
/// player, or failed to.
///
/// Where the store failed, the registration is turned down, as
/// [`told_turned_down`] says. A player that was created is sent a token for
/// the server it asked for, signed with the active key, and its reconnect
/// code; that succeeds and fails as [`send_settled`] says. An error changes
/// nothing.
pub open spec fn created_handled(
    before: (Storage, Client),
    server_name: Seq<char>,
    code: Seq<char>,
    created: Result<i64, AscendingError>,
    after: (Storage, Client),
    r: Result<ClientStep, AscendingError>,
) -> bool {
    match created {
        Err(_) => told_turned_down(before, after, r, Rejection::CreationFailed),
        Ok(uid) => {
            let answer = login_payload(
                token_of(before.0.keys.key_bytes(before.0.keys.active_slot()), server_name, uid),
                code,
            );
            &&& r is Err ==> unchanged(before, after)
            &&& r is Ok ==> is_done(r) && replied(before, after, answer)
            &&& send_settled(before.1.state == SocketState::Closed, answer, r)
        },
    }
}

/// Ends a registration once the store has created the player, or failed to.
pub fn handle_register_created(
    storage: &mut Storage,
    client: &mut Client,
    server_name: String,
    code: String,
    created: Result<i64, AscendingError>,
) -> (r: Result<ClientStep, AscendingError>)
    requires
        old(storage).wf(),
        old(client).wf(),
    ensures
        final(storage).wf(),
        final(client).wf(),
        created_handled(
            (*old(storage), *old(client)),
            server_name@,
            code@,
            created,
            (*final(storage), *final(client)),
            r,
        ),
{
    match created {
        Ok(uid) => {
            let claim = UserClaim { server_name, uid };
            let token = match storage.keys.encode(&claim) {
                Ok(token) => token,
                Err(e) => return Err(e),
            };
            match send_login(storage, client, token, code.as_str()) {
                Ok(()) => Ok(ClientStep::Done),
                Err(e) => Err(e),
            }
        },
        Err(_) => turn_down(storage, client, Rejection::CreationFailed),
    }
}

/// What [`handle_server_list_request`] does: the directory is sent to the
/// client, page by page. Where a page cannot be sent, the pages before it
/// have been, and the rest are not. Nothing is sent to a closed connection.
pub open spec fn server_list_handled(
    before: (Storage, Client),
    after: (Storage, Client),
    r: Result<ClientStep, AscendingError>,
) -> bool {
    let infos = before.0.servers.infos();
    let pages = server_list_pages(before.0.servers.ids().len() as int);
    &&& before.0.differs_in_poll(&after.0)
    &&& after.1.token == before.1.token
    &&& after.1.state == before.1.state
    &&& after.1.buffer == before.1.buffer
    &&& after.1.addr == before.1.addr
    &&& after.1.sent_in_pass == before.1.sent_in_pass
    &&& r is Ok ==> is_done(r)
    &&& before.1.state == SocketState::Closed ==> r is Ok && after.1 == before.1
    &&& r is Ok && before.1.state != SocketState::Closed ==> after.1.frames()
        == before.1.frames() + server_list_frames(infos, pages)
    &&& r is Ok ==> after.0.poll@ == before.1.asked_to_write(&after.1, before.0.poll@)
    &&& r is Err ==> exists|sent: int|
        0 <= sent < pages && after.1.frames() == before.1.frames() + #[trigger] server_list_frames(
            infos,
            sent,
        )
}

/// Sends the directory to a client that asked for it.
pub fn handle_server_list_request(
    storage: &mut Storage,
    _data: &mut ByteBuffer,
    client: &mut Client,
) -> (r: Result<ClientStep, AscendingError>)
    requires
        old(storage).wf(),
        old(client).wf(),
    ensures
        final(storage).wf(),
        final(client).wf(),
        *final(_data) == *old(_data),
        server_list_handled(
            (*old(storage), *old(client)),
            (*final(storage), *final(client)),
            r,
        ),
{
    match send_server_list(storage, client) {
        Ok(()) => Ok(ClientStep::Done),
        Err(e) => Err(e),
    }
}

/// The login that is read at `cursor`: e-mail address, password, version,
/// reconnect code, and the name of the server the player wants to play on.
pub open spec fn login_request_at(bytes: Seq<u8>, cursor: int) -> Option<LoginRequestView> {
    match str_at(bytes, cursor) {
        None => None,
        Some((email, at_password)) => match str_at(bytes, at_password) {
            None => None,
            Some((password, at_version)) => match (
                version_at(bytes, at_version),
                str_at(bytes, at_version + 6),
            ) {
                (Some(version), Some((reconnect_code, at_server))) => match str_at(
                    bytes,
                    at_server,
                ) {
                    None => None,
                    Some((server_name, _)) => Some(
                        LoginRequestView {
                            email,
                            password,
                            appmajor: version.0,
                            appminor: version.1,
                            apprevision: version.2,
                            reconnect_code,
                            server_name,
                        },
                    ),
                },
                _ => None,
            },
        },
    }
}

/// Why a login is turned down before the store is asked, if it is.
pub open spec fn login_fault(request: LoginRequestView) -> Option<Rejection> {
    if client_outdated(request.appmajor, request.appminor, request.apprevision) {
        Some(Rejection::Outdated)
    } else if encode_utf8(request.email).len() >= MAX_NAME_LENGTH || encode_utf8(
        request.password,
    ).len() >= MAX_PASSWORD_LENGTH {
        Some(Rejection::NoAccount)
    } else {
        None
    }
}

/// Why a login is turned down before the store is asked, if it is.
pub fn check_login(request: &LoginRequest) -> (r: Option<Rejection>)
    ensures
        r == login_fault(request@),
{
    if is_client_outdated(request.appmajor, request.appminor, request.apprevision) {
        Some(Rejection::Outdated)
    } else if request.email.as_str().as_bytes().len() >= MAX_NAME_LENGTH
        || request.password.as_str().as_bytes().len() >= MAX_PASSWORD_LENGTH {
        Some(Rejection::NoAccount)
    } else {
        None
    }
}

/// What [`handle_login`] does with the frame `frame`, read from its second
/// part on.
///
/// A login that cannot be read in full is a fault of the frame. One from an
/// outdated client, or with an address or a password that is too long, is
/// turned down, as [`told_turned_down`] says. For any other the store is to
/// be asked for the player, and that always succeeds. An error changes
/// nothing.
pub open spec fn login_handled(
    before: (Storage, Client),
    frame: (Seq<u8>, int),
    after: (Storage, Client),
    r: Result<ClientStep, AscendingError>,
) -> bool {
    &&& r is Err ==> unchanged(before, after)
    &&& match login_request_at(frame.0, frame.1) {
        None => is_buffer_fault(r),
        Some(request) => match login_fault(request) {
            Some(reason) => told_turned_down(before, after, r, reason),
            None => {
                &&& r matches Ok(ClientStep::FindPlayer { request: read })
                &&& read@ == request
                &&& unchanged(before, after)
            },
        },
    }
}

/// Reads a login and decides what is done with it.
pub fn handle_login(storage: &mut Storage, data: &mut ByteBuffer, client: &mut Client) -> (r:
    Result<ClientStep, AscendingError>)
    requires
        old(client).wf(),
    ensures
        final(client).wf(),
        bb_bytes(*final(data)) == bb_bytes(*old(data)),
        bb_room(*final(data)) == bb_room(*old(data)),
        login_handled(
            (*old(storage), *old(client)),
            (bb_bytes(*old(data)), bb_cursor(*old(data)) as int),
            (*final(storage), *final(client)),
            r,
        ),
{
    let email = match data.read_str() {
        Ok(v) => v,
        Err(e) => return Err(e),
    };
    let password = match data.read_str() {
        Ok(v) => v,
        Err(e) => return Err(e),
    };
    let appmajor = match read_u16(data) {
        Ok(v) => v as usize,
        Err(e) => return Err(e),
    };
    let appminor = match read_u16(data) {
        Ok(v) => v as usize,
        Err(e) => return Err(e),
    };
    let apprevision = match read_u16(data) {
        Ok(v) => v as usize,
        Err(e) => return Err(e),
    };
    let reconnect_code = match data.read_str() {
        Ok(v) => v,
        Err(e) => return Err(e),
    };
    let server_name = match data.read_str() {
        Ok(v) => v,
        Err(e) => return Err(e),
    };
    let request = LoginRequest {
        email,
        password,
        appmajor,
        appminor,
        apprevision,
        reconnect_code,
        server_name,
    };
    match check_login(&request) {
        Some(reason) => turn_down(storage, client, reason),
        None => Ok(ClientStep::FindPlayer { request }),
    }
}

/// What a login has to do about an earlier session of the player.
pub enum Relogin {
    /// The player is not logged in anywhere.
    NotNeeded,
    /// The player is logged in, and the login cannot take the session over.
    Refused,
    /// The player is logged in on the game server with this identifier,
    /// which is to drop it.
    Kill(usize),
}

/// What a login with the reconnect code `given` has to do about an earlier
/// session of the player of `row`.
///
/// A player without a current server is not logged in. One with a current
/// server can be taken over where the row holds a reconnect code, `given` is
/// that code, the directory knows the server by its name, and the server is
/// connected.
pub open spec fn relogin_of(storage: Storage, row: PlayerWithPassword, given: Seq<char>) -> Relogin {
    match (row.current_server, row.reconnect_code) {
        (None, _) => Relogin::NotNeeded,
        (Some(_), None) => Relogin::Refused,
        (Some(current), Some(code)) => if code@ != given {
            Relogin::Refused
        } else {
            match storage.servers.id_of(current@) {
                None => Relogin::Refused,
                Some(id) => if storage.server.game_servers@.contains_key(id) {
                    Relogin::Kill(id)
                } else {
                    Relogin::Refused
                },
            }
        },
    }
}

/// `after` is `before` with the game server `id` told to drop the player `uid`.
pub open spec fn killed(before: Storage, after: Storage, id: usize, uid: i64) -> bool {
    &&& after.servers == before.servers
    &&& after.client_ids == before.client_ids
    &&& after.servers_ids == before.servers_ids
    &&& after.config == before.config
    &&& after.keys == before.keys
    &&& after.server.clients == before.server.clients
    &&& after.server.tokens == before.server.tokens
    &&& after.server.game_servers@.dom() == before.server.game_servers@.dom()
    &&& forall|t: usize|
        t != id && before.server.game_servers@.contains_key(t)
            ==> #[trigger] after.server.game_servers@[t] == before.server.game_servers@[t]
    &&& before.server.game_servers@[id].queued(
        &after.server.game_servers@[id],
        frame_bytes(kill_client_payload(uid)),
    )
    &&& after.poll@ == before.server.game_servers@[id].asked_to_write(
        &after.server.game_servers@[id],
        before.poll@,
    )
}

/// `after` is `before` but that the registry of game servers may be another
/// that holds the same connections.
pub open spec fn registry_kept(before: Storage, after: Storage) -> bool {
    &&& after.servers == before.servers
    &&& after.client_ids == before.client_ids
    &&& after.servers_ids == before.servers_ids
    &&& after.config == before.config
    &&& after.keys == before.keys
    &&& after.server.clients == before.server.clients
    &&& after.server.tokens == before.server.tokens
    &&& after.server.game_servers@ == before.server.game_servers@
    &&& after.poll@ == before.poll@
}

/// Tells the game server `id` to drop the player `uid`: the game server is
/// sent the frame, as [`send_kill_client`] does, while it is out of the
/// registry. What is sent to a closed game server is dropped, which always
/// succeeds; otherwise it fails only where no buffer can be had for the
/// frame, and then the registry holds what it held.
pub fn kill_session(storage: &mut Storage, id: usize, uid: i64) -> (r: Result<(), AscendingError>)
    requires
        old(storage).wf(),
        old(storage).server.game_servers@.contains_key(id),
    ensures
        final(storage).wf(),
        old(storage).server.game_servers@[id].state == SocketState::Closed ==> r is Ok,
        r is Err ==> is_buffer_fault(r),
        r is Ok ==> killed(*old(storage), *final(storage), id, uid),
        r is Err ==> registry_kept(*old(storage), *final(storage)),
{
    broadcast use vstd::std_specs::hash::group_hash_axioms;

    let mut game_server = match storage.server.game_servers.remove(&id) {
        Some(game_server) => game_server,
        None => return Ok(()),
    };
    let ghost out = *storage;
    let r = send_kill_client(storage, &mut game_server, uid);
    storage.server.game_servers.insert(id, game_server);
    proof {
        assert(storage.server.game_servers@.dom() =~= old(storage).server.game_servers@.dom());
        if r is Err {
            assert(storage.server.game_servers@ =~= old(storage).server.game_servers@);
        }
        assert forall|i: int| 0 <= i < storage.server.tokens@.len() implies (
        #[trigger] storage.server.tokens@[i]) >= 2 && !storage.server.is_live(
            storage.server.tokens@[i],
        ) by {
            assert(!old(storage).server.is_live(old(storage).server.tokens@[i]));
        }
    }
    r
}

/// What [`handle_login_found`] does once the store has looked for the
/// player: `found` is the row with the e-mail address of `request`, if there
/// is one.
///
/// Where there is none, or the password is not the one of the row, the login
/// is turned down, in the same words. Where the player is logged in
/// elsewhere, [`relogin_of`] decides: the login is turned down, or the game
/// server of the earlier session is told to drop the player. Then a token
/// for the server that was asked for is signed with the active key, and a
/// fresh reconnect code is to be stored.
///
/// A failure of the store is handed on as it is. A login is turned down as
/// [`told_turned_down`] says. Where the game server cannot be told because
/// no buffer can be had for the frame, the registry holds what it held and
/// the answer is that fault; a closed game server is always told. Once it
/// is told, the login goes on: a token is issued, and that always succeeds.
pub open spec fn found_handled(
    before: (Storage, Client),
    request: LoginRequestView,
    found: Result<Option<PlayerWithPassword>, AscendingError>,
    after: (Storage, Client),
    r: Result<ClientStep, AscendingError>,
) -> bool {
    match found {
        Err(failure) => r == Err::<ClientStep, AscendingError>(failure) && unchanged(
            before,
            after,
        ),
        Ok(None) => told_turned_down(before, after, r, Rejection::NoAccount),
        Ok(Some(row)) => if !argon2_accepts(encode_utf8(request.password), row.password@) {
            told_turned_down(before, after, r, Rejection::NoAccount)
        } else {
            match relogin_of(before.0, row, request.reconnect_code) {
                Relogin::Refused => told_turned_down(before, after, r, Rejection::NoRelogin),
                Relogin::NotNeeded => {
                    &&& after.1 == before.1
                    &&& registry_kept(before.0, after.0)
                    &&& login_signed(before.0, row.uid, request.server_name, r)
                },
                Relogin::Kill(id) => {
                    &&& after.1 == before.1
                    &&& {
                        ||| killed(before.0, after.0, id, row.uid) && login_signed(
                            before.0,
                            row.uid,
                            request.server_name,
                            r,
                        )
                        ||| registry_kept(before.0, after.0) && is_buffer_fault(r)
                    }
                    &&& before.0.server.game_servers@[id].state == SocketState::Closed
                        ==> login_signed(before.0, row.uid, request.server_name, r)
                },
            }
        },
    }
}

/// Goes on with a login once the store has looked for the player.
pub fn handle_login_found(
    storage: &mut Storage,
    client: &mut Client,
    request: LoginRequest,
    found: Result<Option<PlayerWithPassword>, AscendingError>,
) -> (r: Result<ClientStep, AscendingError>)
    requires
        old(storage).wf(),
        old(client).wf(),
    ensures
        final(storage).wf(),
        final(client).wf(),
        found_handled(
            (*old(storage), *old(client)),
            request@,
            found,
            (*final(storage), *final(client)),
            r,
        ),
{
    let player = match found {
        Err(e) => return Err(e),
        Ok(row) => match find_player(row, request.password.as_str()) {
            Ok(Some(player)) => player,
            _ => return turn_down(storage, client, Rejection::NoAccount),
        },
    };
    match player.current_server {
        None => {},
        Some(current) => {
            let old_reconnect_code = match player.reconnect_code {
                Some(code) => code,
                None => return turn_down(storage, client, Rejection::NoRelogin),
            };
            if old_reconnect_code != request.reconnect_code {
                return turn_down(storage, client, Rejection::NoRelogin);
            }
            let token = match storage.servers.find(&current) {
                Some(token) => token,
                None => return turn_down(storage, client, Rejection::NoRelogin),
            };
            if !contains_game_server(storage, token) {
                return turn_down(storage, client, Rejection::NoRelogin);
            }
            match kill_session(storage, token, player.uid) {
                Ok(()) => {},
                Err(e) => return Err(e),
            }
        },
    }
    let claim = UserClaim { server_name: request.server_name, uid: player.uid };
    let token = match storage.keys.encode(&claim) {
        Ok(token) => token,
        Err(e) => return Err(e),
    };
    let code = random_alphanumeric(RECONNECT_CODE_LENGTH);
    Ok(ClientStep::StoreReconnectCode { uid: player.uid, code, token })
}

/// Whether a game server is connected under `id`.
pub fn contains_game_server(storage: &Storage, id: usize) -> (r: bool)
    ensures
        r == storage.server.game_servers@.contains_key(id),
{
    broadcast use vstd::std_specs::hash::group_hash_axioms;

    storage.server.game_servers.contains_key(&id)
}

/// The request was turned down for `reason`: the client was told so, and
/// the frame is dealt with; or, where it could not be told because no
/// buffer could be had for the frame, nothing has changed and the answer is
/// that fault. A closed client is always told, as what is sent to it is
/// dropped.
pub open spec fn told_turned_down(
    before: (Storage, Client),
    after: (Storage, Client),
    r: Result<ClientStep, AscendingError>,
    reason: Rejection,
) -> bool {
    &&& r is Ok ==> is_done(r) && turned_down(before, after, reason)
    &&& r is Err ==> unchanged(before, after) && is_buffer_fault(r)
    &&& before.1.state == SocketState::Closed ==> r is Ok
}

/// The answer of a login that goes on: a token for `server_name` and the
/// player `uid`, signed with the active key of `storage`, and a fresh
/// reconnect code to be stored.
pub open spec fn login_signed(
    storage: Storage,
    uid: i64,
    server_name: Seq<char>,
    r: Result<ClientStep, AscendingError>,
) -> bool {
    &&& r matches Ok(ClientStep::StoreReconnectCode { uid: player, code, token })
    &&& player == uid
    &&& token@ == token_of(storage.keys.key_bytes(storage.keys.active_slot()), server_name, uid)
    &&& code@.len() == RECONNECT_CODE_LENGTH
    &&& forall|i: int| 0 <= i < code@.len() ==> alphanumeric(#[trigger] code@[i])
}

/// What [`handle_login_stored`] does once the store has stored the
/// reconnect code, or failed to: the client is sent the token and the code,
/// which succeeds and fails as [`send_settled`] says, or the failure of the
/// store is handed on as it is. An error changes nothing.
pub open spec fn stored_handled(
    before: (Storage, Client),
    token: Seq<char>,
    code: Seq<char>,
    stored: Result<(), AscendingError>,
    after: (Storage, Client),
    r: Result<ClientStep, AscendingError>,
) -> bool {
    &&& r is Err ==> unchanged(before, after)
    &&& r is Ok ==> is_done(r) && replied(before, after, login_payload(token, code))
    &&& match stored {
        Err(failure) => r == Err::<ClientStep, AscendingError>(failure),
        Ok(_) => send_settled(
            before.1.state == SocketState::Closed,
            login_payload(token, code),
            r,
        ),
    }
}

/// Ends a login once the store has stored the reconnect code, or failed to.
pub fn handle_login_stored(
    storage: &mut Storage,
    client: &mut Client,
    token: String,
    code: String,
    stored: Result<(), AscendingError>,
) -> (r: Result<ClientStep, AscendingError>)
    requires
        old(client).wf(),
    ensures
        final(client).wf(),
        stored_handled(
            (*old(storage), *old(client)),
            token@,
            code@,
            stored,
            (*final(storage), *final(client)),
            r,
        ),
{
    match stored {
        Err(e) => return Err(e),
        Ok(()) => {},
    }
    match send_login(storage, client, token, code.as_str()) {
        Ok(()) => Ok(ClientStep::Done),
        Err(e) => Err(e),
    }
}

/// What the player store answers to what a handler asked of it.
#[derive(Debug)]
pub enum StoreReply {
    /// Whether the name and the address of a registration are taken.
    Existence(Result<Check, AscendingError>),
    /// The identifier of the player that was created.
    Created(Result<i64, AscendingError>),
    /// The row of the player with the e-mail address of a login.
    Found(Result<Option<PlayerWithPassword>, AscendingError>),
    /// Whether the reconnect code was stored.
    Stored(Result<(), AscendingError>),
}

/// What the answer of the store means for a registration, where it has one.
pub open spec fn existence_of(check: Result<Check, AscendingError>) -> Result<i64, AscendingError> {
    match check {
        Ok(check) => Ok(existence_code(check)),
        Err(e) => Err(e),
    }
}

/// What is done with the answer `reply` of the store to what the handler
/// asked with `step`: each answer goes to the handler that waits for it. An
/// answer to another question than the one asked is an error and changes
/// nothing.
pub open spec fn resumed(
    before: (Storage, Client),
    step: ClientStep,
    reply: StoreReply,
    after: (Storage, Client),
    r: Result<ClientStep, AscendingError>,
) -> bool {
    match (step, reply) {
        (ClientStep::CheckExistence { request }, StoreReply::Existence(check)) => existence_handled(
            before,
            request@,
            existence_of(check),
            after,
            r,
        ),
        (
            ClientStep::CreatePlayer { player, hashed_password, server_name },
            StoreReply::Created(created),
        ) => created_handled(before, server_name@, player.code@, created, after, r),
        (ClientStep::FindPlayer { request }, StoreReply::Found(found)) => found_handled(
            before,
            request@,
            found,
            after,
            r,
        ),
        (ClientStep::StoreReconnectCode { uid, code, token }, StoreReply::Stored(stored)) => {
            stored_handled(before, token@, code@, stored, after, r)
        },
        _ => r matches Err(AscendingError::InvalidPacket) && unchanged(before, after),
    }
}

/// Goes on with the handling of a client's frame once the store has
/// answered what the handler asked of it.
pub fn resume_client(
    storage: &mut Storage,
    client: &mut Client,
    step: ClientStep,
    reply: StoreReply,
) -> (r: Result<ClientStep, AscendingError>)
    requires
        old(storage).wf(),
        old(client).wf(),
    ensures
        final(storage).wf(),
        final(client).wf(),
        resumed((*old(storage), *old(client)), step, reply, (*final(storage), *final(client)), r),
{
    match (step, reply) {
        (ClientStep::CheckExistence { request }, StoreReply::Existence(check)) => {
            let existence = match check {
                Ok(check) => Ok(check_existance(check)),
                Err(e) => Err(e),
            };
            handle_register_existence(storage, client, request, existence)
        },
        (
            ClientStep::CreatePlayer { player, hashed_password, server_name },
            StoreReply::Created(created),
        ) => handle_register_created(storage, client, server_name, player.code, created),
        (ClientStep::FindPlayer { request }, StoreReply::Found(found)) => handle_login_found(
            storage,
            client,
            request,
            found,
        ),
        (ClientStep::StoreReconnectCode { uid, code, token }, StoreReply::Stored(stored)) => {
            handle_login_stored(storage, client, token, code, stored)
        },
        _ => Err(AscendingError::InvalidPacket),
    }
}

} // verus!
