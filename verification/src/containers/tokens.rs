use crate::containers::storage::UserClaim;
use crate::gametypes::error::AscendingError;
use jsonwebtoken::{Algorithm, DecodingKey, EncodingKey, Header, Validation};
use rand::distributions::{Alphanumeric, DistString};
use rand::Rng;
use vstd::prelude::*;
use vstd::slice::slice_to_vec;
use vstd::utf8::*;

verus! {

/// The number of characters of a signing secret.
pub const KEY_LENGTH: usize = 64;

/// The number of characters a secret is drawn from.
pub const CHARSET_LEN: usize = 73;

/// The characters a secret is drawn from.
pub open spec fn charset() -> Seq<char> {
    seq![
        'A', 'B', 'C', 'D', 'E', 'F', 'G', 'H', 'I', 'J', 'K', 'L', 'M', 'N', 'O', 'P', 'Q', 'R',
        'S', 'T', 'U', 'V', 'W', 'X', 'Y', 'Z', 'a', 'b', 'c', 'd', 'e', 'f', 'g', 'h', 'i', 'j',
        'k', 'l', 'm', 'n', 'o', 'p', 'q', 'r', 's', 't', 'u', 'v', 'w', 'x', 'y', 'z', '0', '1',
        '2', '3', '4', '5', '6', '7', '8', '9', ')', '(', '*', '&', '^', '%', '$', '#', '@', '!',
        '~',
    ]
}

/// Every character of `text` is one a secret may hold.
pub open spec fn drawn_from_charset(text: Seq<char>) -> bool {
    forall|i: int| 0 <= i < text.len() ==> charset().contains(#[trigger] text[i])
}

/// The character at `index` of the set that secrets are drawn from.
pub fn charset_at(index: usize) -> (c: char)
    requires
        index < CHARSET_LEN,
    ensures
        c == charset()[index as int],
{
    let table: [char; 73] = [
        'A', 'B', 'C', 'D', 'E', 'F', 'G', 'H', 'I', 'J', 'K', 'L', 'M', 'N', 'O', 'P', 'Q', 'R',
        'S', 'T', 'U', 'V', 'W', 'X', 'Y', 'Z', 'a', 'b', 'c', 'd', 'e', 'f', 'g', 'h', 'i', 'j',
        'k', 'l', 'm', 'n', 'o', 'p', 'q', 'r', 's', 't', 'u', 'v', 'w', 'x', 'y', 'z', '0', '1',
        '2', '3', '4', '5', '6', '7', '8', '9', ')', '(', '*', '&', '^', '%', '$', '#', '@', '!',
        '~',
    ];
    assert(table@ =~= charset());
    table[index]
}

/// `Rng::gen_range` on the thread's generator of `rand`, over `0..bound`.
/// Claims only that the number drawn is below `bound`. The range must not be
/// empty, or the generator panics.
#[verifier::external_body]
fn random_below(bound: usize) -> (n: usize)
    requires
        bound > 0,
    ensures
        n < bound,
{
    rand::thread_rng().gen_range(0..bound)
}

/// Whether `c` is a letter or a digit of ASCII.
pub open spec fn alphanumeric(c: char) -> bool {
    ('a' <= c && c <= 'z') || ('A' <= c && c <= 'Z') || ('0' <= c && c <= '9')
}

/// `DistString::sample_string` of `rand`, for its `Alphanumeric`
/// distribution, on the thread's generator. Claims that the text has `len`
/// characters and that each is a letter or a digit of ASCII.
#[verifier::external_body]
pub(crate) fn random_alphanumeric(len: usize) -> (code: String)
    ensures
        code@.len() == len,
        forall|i: int| 0 <= i < len ==> alphanumeric(#[trigger] code@[i]),
{
    Alphanumeric.sample_string(&mut rand::thread_rng(), len)
}

/// `String::from_iter` over characters. Claims that the text holds exactly
/// the characters given, in order.
#[verifier::external_body]
fn string_from_chars(chars: &[char]) -> (text: String)
    ensures
        text@ == chars@,
{
    String::from_iter(chars.iter())
}

/// `Utc::now` of `chrono`, as milliseconds since the Unix epoch. Nothing is
/// claimed of the clock. On a machine whose clock stands before the epoch
/// `Utc::now` panics; no argument could rule that out.
#[verifier::external_body]
pub(crate) fn now_millis() -> (now: i64) {
    chrono::Utc::now().timestamp_millis()
}

/// `length` random characters of those that a secret may hold.
pub fn gen_chars(length: usize) -> (chars: Vec<char>)
    ensures
        chars@.len() == length,
        drawn_from_charset(chars@),
{
    let mut chars: Vec<char> = Vec::new();
    let mut i: usize = 0;
    while i < length
        invariant
            i <= length,
            chars@.len() == i,
            drawn_from_charset(chars@),
        decreases length - i,
    {
        let index = random_below(CHARSET_LEN);
        let c = charset_at(index);
        chars.push(c);
        assert(charset().contains(c));
        i += 1;
    }
    chars
}

/// A random secret of `length` characters.
pub fn gen_token(length: usize) -> (token: String)
    ensures
        token@.len() == length,
        drawn_from_charset(token@),
{
    let chars = gen_chars(length);
    string_from_chars(chars.as_slice())
}

/// The empty text is the one that has no bytes.
pub proof fn lemma_empty_has_no_bytes(text: Seq<char>)
    ensures
        encode_utf8(text).len() == 0 <==> text.len() == 0,
{
    encode_utf8_decode_utf8(text);
    if encode_utf8(text).len() == 0 {
        assert(encode_utf8(text) =~= Seq::<u8>::empty());
        assert(decode_utf8(Seq::<u8>::empty()) =~= Seq::<char>::empty());
    }
    if text.len() == 0 {
        assert(encode_utf8(text) =~= Seq::<u8>::empty());
    }
}

/// The first character of `text`, if it has one.
pub open spec fn first_of(text: Seq<char>) -> Option<char> {
    if text.len() > 0 {
        Some(text[0])
    } else {
        None
    }
}

/// The first of the three characters at the head of the set that secrets
/// are drawn from that is neither `a` nor `b`.
pub open spec fn apart(a: Option<char>, b: Option<char>) -> char {
    if a != Some(charset()[0]) && b != Some(charset()[0]) {
        charset()[0]
    } else if a != Some(charset()[1]) && b != Some(charset()[1]) {
        charset()[1]
    } else {
        charset()[2]
    }
}

/// `drawn` where it differs from `first` and from `second` or is empty;
/// otherwise `drawn` with its first character replaced by one that neither
/// `first` nor `second` begins with.
pub open spec fn set_apart(drawn: Seq<char>, first: Seq<char>, second: Seq<char>) -> Seq<char> {
    if drawn.len() > 0 && (drawn == first || drawn == second) {
        drawn.update(0, apart(first_of(first), first_of(second)))
    } else {
        drawn
    }
}

/// What is set apart differs from both secrets unless it is empty, and is
/// as long as what was drawn, of characters that a secret may hold.
pub proof fn lemma_set_apart(drawn: Seq<char>, first: Seq<char>, second: Seq<char>)
    requires
        drawn_from_charset(drawn),
    ensures
        set_apart(drawn, first, second).len() == drawn.len(),
        drawn_from_charset(set_apart(drawn, first, second)),
        drawn.len() > 0 ==> set_apart(drawn, first, second) != first && set_apart(
            drawn,
            first,
            second,
        ) != second,
{
    let c = apart(first_of(first), first_of(second));
    assert(charset()[0] != charset()[1] && charset()[1] != charset()[2] && charset()[0]
        != charset()[2]);
    assert(charset().contains(charset()[0]) && charset().contains(charset()[1])
        && charset().contains(charset()[2]));
    let made = set_apart(drawn, first, second);
    if drawn.len() > 0 && (drawn == first || drawn == second) {
        assert(made[0] == c);
        assert forall|i: int| 0 <= i < made.len() implies charset().contains(
            #[trigger] made[i],
        ) by {
            if i > 0 {
                assert(made[i] == drawn[i]);
            }
        }
        if first.len() > 0 {
            assert(first[0] != c);
        }
        if second.len() > 0 {
            assert(second[0] != c);
        }
    }
}

/// The first character of `text`, if it has one.
fn first_char(text: &str) -> (c: Option<char>)
    ensures
        c == first_of(text@),
{
    if text.is_empty() {
        None
    } else {
        Some(text.get_char(0))
    }
}

/// The secret made of the characters `drawn`, set apart from the secrets
/// `first` and `second`: it differs from both unless it is empty.
pub fn secret_apart(drawn: Vec<char>, first: &String, second: &String) -> (secret: String)
    ensures
        secret@ == set_apart(drawn@, first@, second@),
{
    let mut drawn = drawn;
    let secret = string_from_chars(drawn.as_slice());
    if drawn.len() > 0 && (secret == *first || secret == *second) {
        let a = first_char(first.as_str());
        let b = first_char(second.as_str());
        let c = if a != Some(charset_at(0)) && b != Some(charset_at(0)) {
            charset_at(0)
        } else if a != Some(charset_at(1)) && b != Some(charset_at(1)) {
            charset_at(1)
        } else {
            charset_at(2)
        };
        drawn.set(0, c);
        string_from_chars(drawn.as_slice())
    } else {
        secret
    }
}

/// Two secrets of which one is active, and the time of the last change.
#[derive(Clone)]
pub struct RotatableKey {
    first: String,
    second: String,
    active_id: usize,
    last_updated: i64,
}

impl RotatableKey {
    /// The two secrets, by slot.
    pub closed spec fn secrets(&self) -> (Seq<char>, Seq<char>) {
        (self.first@, self.second@)
    }

    /// The slot of the active secret.
    pub closed spec fn active_slot(&self) -> int {
        self.active_id as int
    }

    /// The time of the last change, in milliseconds since the Unix epoch.
    pub closed spec fn updated_at(&self) -> i64 {
        self.last_updated
    }

    /// The secret in `slot`.
    pub open spec fn secret(&self, slot: int) -> Seq<char> {
        if slot == 0 {
            self.secrets().0
        } else {
            self.secrets().1
        }
    }

    /// The two secrets differ, and the active slot is one of the two.
    pub open spec fn wf(&self) -> bool {
        &&& self.secrets().0 != self.secrets().1
        &&& 0 <= self.active_slot() < 2
    }

    /// The store after a rotation that installs `fresh` at time `now`: the
    /// other slot becomes the active one and takes `fresh`.
    pub open spec fn rotated(&self, after: &RotatableKey, fresh: Seq<char>, now: i64) -> bool {
        &&& after.active_slot() == 1 - self.active_slot()
        &&& after.secret(after.active_slot()) == fresh
        &&& after.secret(self.active_slot()) == self.secret(self.active_slot())
        &&& after.updated_at() == now
    }

    /// Whether `secret` may be drawn for a store of secrets of `key_size`
    /// characters: it has that many, each of them one that a secret may hold.
    pub open spec fn drawn(secret: Seq<char>, key_size: usize) -> bool {
        secret.len() == key_size && drawn_from_charset(secret)
    }

    /// `r` is what is made of the secrets `first` and `second` at time
    /// `now`: no store where the two are equal, and otherwise a well-formed
    /// store that holds the two in this order, the first active, stamped
    /// with `now`.
    pub open spec fn made_of(
        r: Option<RotatableKey>,
        first: Seq<char>,
        second: Seq<char>,
        now: i64,
    ) -> bool {
        &&& r is Some <==> first != second
        &&& r matches Some(k) ==> k.wf() && k.secrets() == (first, second) && k.active_slot() == 0
            && k.updated_at() == now
    }

    /// A store of the two given secrets, the first active. There is none
    /// where the two are equal.
    pub fn from_secrets(first: String, second: String, now: i64) -> (r: Option<RotatableKey>)
        ensures
            Self::made_of(r, first@, second@, now),
    {
        if first == second {
            None
        } else {
            Some(RotatableKey { first, second, active_id: 0, last_updated: now })
        }
    }

    /// A store of two random secrets of `key_size` characters, the first
    /// active, stamped with the current time: it draws two secrets, sets the
    /// second apart from the first, takes the time, and makes of them what
    /// [`RotatableKey::from_secrets`] makes. So there is a store for every
    /// `key_size` but 0, for which the two secrets cannot differ.
    pub fn new(key_size: usize) -> (r: Option<RotatableKey>)
        ensures
            r is Some <==> key_size >= 1,
            exists|first: Seq<char>, second: Seq<char>, now: i64|
                #[trigger] Self::made_of(r, first, second, now) && Self::drawn(first, key_size)
                    && Self::drawn(second, key_size),
            r matches Some(k) ==> k.wf() && k.active_slot() == 0 && k.secret(0).len() == key_size
                && k.secret(1).len() == key_size && drawn_from_charset(k.secret(0))
                && drawn_from_charset(k.secret(1)),
    {
        let first = gen_token(key_size);
        let drawn = gen_chars(key_size);
        proof {
            lemma_set_apart(drawn@, first@, first@);
            if key_size == 0 {
                assert(first@ =~= drawn@);
            }
        }
        let second = secret_apart(drawn, &first, &first);
        let now = now_millis();
        let ghost made = (first@, second@);
        let r = Self::from_secrets(first, second, now);
        proof {
            assert(Self::made_of(r, made.0, made.1, now) && Self::drawn(made.0, key_size)
                && Self::drawn(made.1, key_size));
        }
        r
    }

    pub fn keys(&self) -> (r: [&str; 2])
        ensures
            r[0]@ == self.secret(0),
            r[1]@ == self.secret(1),
    {
        [self.first.as_str(), self.second.as_str()]
    }

    #[inline(always)]
    pub fn active_id(&self) -> (r: usize)
        ensures
            r == self.active_slot(),
    {
        self.active_id
    }

    #[inline(always)]
    pub fn inactive_id(&self) -> (r: usize)
        requires
            self.wf(),
        ensures
            r == 1 - self.active_slot(),
    {
        (self.active_id + 1) % 2
    }

    pub fn active_key(&self) -> (r: &str)
        requires
            self.wf(),
        ensures
            r@ == self.secret(self.active_slot()),
    {
        if self.active_id == 0 {
            self.first.as_str()
        } else {
            self.second.as_str()
        }
    }

    pub fn inactive_key(&self) -> (r: &str)
        requires
            self.wf(),
        ensures
            r@ == self.secret(1 - self.active_slot()),
    {
        if self.active_id == 0 {
            self.second.as_str()
        } else {
            self.first.as_str()
        }
    }

    /// The time of the last change, in milliseconds since the Unix epoch.
    pub fn last_updated(&self) -> (r: i64)
        ensures
            r == self.updated_at(),
    {
        self.last_updated
    }

    /// Whether a rotation of this store may draw `fresh`: a secret of as
    /// many characters as the first secret has bytes, each of them one that a
    /// secret may hold.
    pub open spec fn may_draw(&self, fresh: Seq<char>) -> bool {
        fresh.len() == encode_utf8(self.secret(0)).len() && drawn_from_charset(fresh)
    }

    /// What an attempt to rotate this store to `fresh` at time `now` makes
    /// of it: where `fresh` differs from both secrets held, `after` is the
    /// store rotated to `fresh`, and `done` holds; where it equals one of
    /// them, `after` is this store, and `done` does not hold.
    pub open spec fn rotated_to(
        &self,
        after: &RotatableKey,
        fresh: Seq<char>,
        now: i64,
        done: bool,
    ) -> bool {
        &&& done <==> fresh != self.secret(0) && fresh != self.secret(1)
        &&& done ==> self.rotated(after, fresh, now)
        &&& !done ==> after.secrets() == self.secrets() && after.active_slot()
            == self.active_slot() && after.updated_at() == self.updated_at()
    }

    /// Rotates to `fresh` at time `now`, unless `fresh` equals one of the two
    /// secrets held: then nothing changes. Tells whether it rotated.
    pub fn rotate_to(&mut self, fresh: String, now: i64) -> (done: bool)
        requires
            old(self).wf(),
        ensures
            final(self).wf(),
            old(self).rotated_to(final(self), fresh@, now, done),
    {
        if fresh == self.first || fresh == self.second {
            return false;
        }
        if self.active_id == 0 {
            self.active_id = 1;
            self.second = fresh;
        } else {
            self.active_id = 0;
            self.first = fresh;
        }
        self.last_updated = now;
        true
    }

    /// Rotates at time `now` to a random secret as long as the first one: it
    /// draws a secret that [`RotatableKey::may_draw`] allows, sets it apart
    /// from the two secrets held, and does with it what
    /// [`RotatableKey::rotate_to`] does. So it rotates, and stamps the store
    /// with `now`, unless the first secret is empty: then the secret drawn is
    /// empty too, nothing changes, and the answer is `false`.
    pub fn rotate_at(&mut self, now: i64) -> (done: bool)
        requires
            old(self).wf(),
        ensures
            final(self).wf(),
            done <==> old(self).secret(0).len() >= 1,
            exists|fresh: Seq<char>|
                #[trigger] old(self).rotated_to(final(self), fresh, now, done) && old(self).may_draw(fresh),
    {
        let drawn = gen_chars(self.first.as_str().as_bytes().len());
        proof {
            lemma_set_apart(drawn@, self.first@, self.second@);
            lemma_empty_has_no_bytes(self.first@);
            if drawn@.len() == 0 {
                assert(drawn@ =~= self.first@);
            }
        }
        let fresh = secret_apart(drawn, &self.first, &self.second);
        let ghost text = fresh@;
        let done = self.rotate_to(fresh, now);
        proof {
            assert(old(self).rotated_to(final(self), text, now, done) && old(self).may_draw(text));
        }
        done
    }

    /// Rotates at the current time, as [`RotatableKey::rotate_at`] does.
    pub fn rotate(&mut self) -> (done: bool)
        requires
            old(self).wf(),
        ensures
            final(self).wf(),
            done <==> old(self).secret(0).len() >= 1,
            exists|fresh: Seq<char>, now: i64|
                #[trigger] old(self).rotated_to(final(self), fresh, now, done) && old(self).may_draw(fresh),
    {
        let now = now_millis();
        let done = self.rotate_at(now);
        proof {
            let fresh = choose|fresh: Seq<char>|
                #[trigger] old(self).rotated_to(final(self), fresh, now, done) && old(self).may_draw(fresh);
            assert(old(self).rotated_to(final(self), fresh, now, done) && old(self).may_draw(
                fresh,
            ));
        }
        done
    }
}

/// The two secrets are never equal, whatever is done to a store.
pub proof fn law_secrets_differ(keys: RotatableKey)
    requires
        keys.wf(),
    ensures
        keys.secret(0) != keys.secret(1),
        keys.secret(keys.active_slot()) != keys.secret(1 - keys.active_slot()),
{
}

/// A secret is still held after one rotation, in the slot that is no longer
/// active, and is gone from both slots after two.
pub proof fn law_secret_outlives_one_rotation(
    start: RotatableKey,
    once: RotatableKey,
    twice: RotatableKey,
    fresh1: Seq<char>,
    now1: i64,
    fresh2: Seq<char>,
    now2: i64,
)
    requires
        start.wf(),
        once.wf(),
        twice.wf(),
        fresh1 != start.secret(0) && fresh1 != start.secret(1),
        fresh2 != once.secret(0) && fresh2 != once.secret(1),
        start.rotated(&once, fresh1, now1),
        once.rotated(&twice, fresh2, now2),
    ensures
        once.secret(1 - once.active_slot()) == start.secret(start.active_slot()),
        twice.secret(0) != start.secret(start.active_slot()),
        twice.secret(1) != start.secret(start.active_slot()),
{
}

/// The keyed-hash algorithms by which a token can be signed.
#[derive(Debug, Copy, Clone, PartialEq, Eq, Structural)]
pub enum TokenAlgorithm {
    HS256,
    HS384,
    HS512,
}

impl TokenAlgorithm {
    /// The number of bits of the hash.
    pub open spec fn bits(self) -> int {
        match self {
            TokenAlgorithm::HS256 => 256,
            TokenAlgorithm::HS384 => 384,
            TokenAlgorithm::HS512 => 512,
        }
    }
}

/// The algorithm by which the broker signs its tokens.
pub const TOKEN_ALGORITHM: TokenAlgorithm = TokenAlgorithm::HS512;

/// The field of a token's payload that holds the name of the server.
pub const CLAIM_SERVER_NAME: &'static str = "server_name";

/// The field of a token's payload that holds the player.
pub const CLAIM_UID: &'static str = "uid";

/// Whether `field` is one of the claims that `jsonwebtoken` reads for its
/// own validation.
pub open spec fn registered_claim(field: Seq<char>) -> bool {
    field == "exp"@ || field == "nbf"@ || field == "sub"@ || field == "iss"@ || field == "aud"@
}

/// Whether a payload can hold a server name under `name_field` and a player
/// under `uid_field`: the two differ, and neither is a registered claim.
pub open spec fn claim_fields_ok(name_field: Seq<char>, uid_field: Seq<char>) -> bool {
    name_field != uid_field && !registered_claim(name_field) && !registered_claim(uid_field)
}

/// The two fields of the broker's tokens can hold a claim.
pub proof fn lemma_claim_fields()
    ensures
        claim_fields_ok(CLAIM_SERVER_NAME@, CLAIM_UID@),
{
    reveal_strlit("server_name");
    reveal_strlit("uid");
    reveal_strlit("exp");
    reveal_strlit("nbf");
    reveal_strlit("sub");
    reveal_strlit("iss");
    reveal_strlit("aud");
    let name = CLAIM_SERVER_NAME@;
    let uid = CLAIM_UID@;
    assert(name.len() == 11 && uid.len() == 3);
    assert("exp"@.len() == 3 && "nbf"@.len() == 3 && "sub"@.len() == 3 && "iss"@.len() == 3
        && "aud"@.len() == 3);
    assert(uid[0] == 'u');
    assert("exp"@[0] == 'e' && "nbf"@[0] == 'n' && "sub"@[0] == 's' && "iss"@[0] == 'i'
        && "aud"@[0] == 'a');
}

/// The token that `jsonwebtoken` issues under `secret`, with the header of
/// the keyed-hash algorithm of `bits` bits, for a payload that holds
/// `server_name` under `name_field` and `uid` under `uid_field`.
pub uninterp spec fn jwt_token_of(
    bits: int,
    secret: Seq<u8>,
    name_field: Seq<char>,
    server_name: Seq<char>,
    uid_field: Seq<char>,
    uid: i64,
) -> Seq<char>;

/// The claim that `jsonwebtoken` reads from `token` under `secret`, where it
/// accepts the token's signature by the keyed-hash algorithm of `bits` bits
/// alone, finds each of the registered claims `required` in the payload,
/// checks no expiry, and finds a text under `name_field` and a number under
/// `uid_field` in the payload; `None` where it does not.
pub uninterp spec fn jwt_claim_of(
    bits: int,
    secret: Seq<u8>,
    token: Seq<char>,
    name_field: Seq<char>,
    uid_field: Seq<char>,
    required: Seq<Seq<char>>,
) -> Option<(Seq<char>, i64)>;

/// The token that the broker issues under `secret` for a claim.
pub open spec fn token_of(secret: Seq<u8>, server_name: Seq<char>, uid: i64) -> Seq<char> {
    jwt_token_of(
        TOKEN_ALGORITHM.bits(),
        secret,
        CLAIM_SERVER_NAME@,
        server_name,
        CLAIM_UID@,
        uid,
    )
}

/// The claim that the broker reads from `token` under `secret`, if any. The
/// broker asks for no registered claim.
pub open spec fn claim_of(secret: Seq<u8>, token: Seq<char>) -> Option<(Seq<char>, i64)> {
    jwt_claim_of(
        TOKEN_ALGORITHM.bits(),
        secret,
        token,
        CLAIM_SERVER_NAME@,
        CLAIM_UID@,
        Seq::empty(),
    )
}

/// The texts of `names`, in their order.
pub open spec fn texts_of(names: Seq<String>) -> Seq<Seq<char>> {
    Seq::new(names.len(), |i: int| names[i]@)
}

/// `jsonwebtoken::encode` with the header of `algorithm`, on a payload of the
/// two fields `name_field` and `uid_field`, under a key made of `secret`.
/// Claims that a token is always issued, as signing with a keyed hash does
/// not fail and a payload of a text and a number is always written; that
/// the token depends on the arguments alone; and that it is read back
/// under the same secret as the claim it was issued for, where the two
/// fields can hold a claim and no registered claim is asked for.
#[verifier::external_body]
fn jwt_encode(
    algorithm: TokenAlgorithm,
    secret: &[u8],
    name_field: &str,
    server_name: &str,
    uid_field: &str,
    uid: i64,
) -> (r: Result<String, jsonwebtoken::errors::Error>)
    ensures
        r is Ok,
        r matches Ok(token) ==> token@ == jwt_token_of(
            algorithm.bits(),
            secret@,
            name_field@,
            server_name@,
            uid_field@,
            uid,
        ),
        r matches Ok(token) ==> (claim_fields_ok(name_field@, uid_field@) ==> jwt_claim_of(
            algorithm.bits(),
            secret@,
            token@,
            name_field@,
            uid_field@,
            Seq::empty(),
        ) == Some((server_name@, uid))),
{
    let header = Header::new(match algorithm {
        TokenAlgorithm::HS256 => Algorithm::HS256,
        TokenAlgorithm::HS384 => Algorithm::HS384,
        TokenAlgorithm::HS512 => Algorithm::HS512,
    });
    let mut payload = serde_json::Map::new();
    payload.insert(String::from(name_field), serde_json::Value::from(server_name));
    payload.insert(String::from(uid_field), serde_json::Value::from(uid));
    jsonwebtoken::encode(&header, &payload, &EncodingKey::from_secret(secret))
}

/// `jsonwebtoken::decode` under a key made of `secret`, accepting `algorithm`
/// alone, asking for the registered claims `required`, and checking the
/// expiry where `check_expiry` says so. Claims that the result depends on
/// the arguments alone where no expiry is checked, so that the clock has
/// no part in it; nothing is claimed of a call that checks the expiry.
#[verifier::external_body]
fn jwt_decode(
    algorithm: TokenAlgorithm,
    token: &str,
    secret: &[u8],
    name_field: &str,
    uid_field: &str,
    required: &Vec<String>,
    check_expiry: bool,
) -> (r: Option<(String, i64)>)
    ensures
        !check_expiry ==> (match r {
            Some((server_name, uid)) => Some((server_name@, uid)),
            None => None,
        }) == jwt_claim_of(
            algorithm.bits(),
            secret@,
            token@,
            name_field@,
            uid_field@,
            texts_of(required@),
        ),
{
    let mut rules = Validation::new(match algorithm {
        TokenAlgorithm::HS256 => Algorithm::HS256,
        TokenAlgorithm::HS384 => Algorithm::HS384,
        TokenAlgorithm::HS512 => Algorithm::HS512,
    });
    rules.set_required_spec_claims(required);
    rules.validate_exp = check_expiry;
    match jsonwebtoken::decode::<serde_json::Value>(token, &DecodingKey::from_secret(secret), &rules) {
        Ok(data) => match (data.claims[name_field].as_str(), data.claims[uid_field].as_i64()) {
            (Some(name), Some(uid)) => Some((String::from(name), uid)),
            _ => None,
        },
        Err(_) => None,
    }
}

/// A signing key: the secret that tokens are signed and checked with.
#[derive(Clone)]
pub struct Key {
    secret: Vec<u8>,
}

impl Key {
    /// The bytes of the secret.
    pub closed spec fn secret_bytes(&self) -> Seq<u8> {
        self.secret@
    }

    pub fn from_secret(bytes: &[u8]) -> (r: Key)
        ensures
            r.secret_bytes() == bytes@,
    {
        Key { secret: slice_to_vec(bytes) }
    }

    /// The bytes of the secret.
    pub fn secret(&self) -> (r: &[u8])
        ensures
            r@ == self.secret_bytes(),
    {
        self.secret.as_slice()
    }
}

/// The rotating secrets together with the signing keys made of them.
#[derive(Clone)]
pub struct RotatableJwtKey {
    first: Key,
    second: Key,
    rotatable_key: RotatableKey,
}

impl RotatableJwtKey {
    /// The secrets that the keys are made of.
    pub closed spec fn secrets(&self) -> RotatableKey {
        self.rotatable_key
    }

    /// The bytes of the signing key in `slot`.
    pub closed spec fn key_bytes(&self, slot: int) -> Seq<u8> {
        if slot == 0 {
            self.first.secret_bytes()
        } else {
            self.second.secret_bytes()
        }
    }

    /// The slot of the active key.
    pub open spec fn active_slot(&self) -> int {
        self.secrets().active_slot()
    }

    /// The secrets are well-formed, and each key is made of the secret in its slot.
    pub open spec fn wf(&self) -> bool {
        &&& self.secrets().wf()
        &&& self.key_bytes(0) == encode_utf8(self.secrets().secret(0))
        &&& self.key_bytes(1) == encode_utf8(self.secrets().secret(1))
    }

    /// What decoding `token` yields: the claim read under the first key that
    /// accepts it, slot 0 before slot 1, and the slot of that key.
    pub open spec fn decoded(&self, token: Seq<char>) -> Option<(int, (Seq<char>, i64))> {
        match claim_of(self.key_bytes(0), token) {
            Some(claim) => Some((0, claim)),
            None => match claim_of(self.key_bytes(1), token) {
                Some(claim) => Some((1, claim)),
                None => None,
            },
        }
    }

    /// Keys made of the given secrets.
    pub fn from_rotatable(rotatable_key: RotatableKey) -> (r: RotatableJwtKey)
        requires
            rotatable_key.wf(),
        ensures
            r.wf(),
            r.secrets() == rotatable_key,
    {
        let keys = rotatable_key.keys();
        let first = Key::from_secret(keys[0].as_bytes());
        let second = Key::from_secret(keys[1].as_bytes());
        RotatableJwtKey { first, second, rotatable_key }
    }

    /// `r` is what is made of the secrets `first` and `second` at time
    /// `now`: no keys where the two are equal, and otherwise well-formed keys
    /// over the store that [`RotatableKey::made_of`] describes.
    pub open spec fn made_of(
        r: Option<RotatableJwtKey>,
        first: Seq<char>,
        second: Seq<char>,
        now: i64,
    ) -> bool {
        &&& r is Some <==> first != second
        &&& r matches Some(k) ==> k.wf() && RotatableKey::made_of(
            Some(k.secrets()),
            first,
            second,
            now,
        )
    }

    /// Keys made of two random secrets of `key_size` characters, as
    /// [`RotatableKey::new`] draws them. There are keys for every `key_size`
    /// but 0.
    pub fn new(key_size: usize) -> (r: Option<RotatableJwtKey>)
        ensures
            r is Some <==> key_size >= 1,
            exists|first: Seq<char>, second: Seq<char>, now: i64|
                #[trigger] Self::made_of(r, first, second, now) && RotatableKey::drawn(
                    first,
                    key_size,
                ) && RotatableKey::drawn(second, key_size),
            r matches Some(k) ==> k.wf() && k.active_slot() == 0 && k.secrets().secret(0).len()
                == key_size && k.secrets().secret(1).len() == key_size,
    {
        let made = RotatableKey::new(key_size);
        let ghost (first, second, now) = choose|first: Seq<char>, second: Seq<char>, now: i64|
            #[trigger] RotatableKey::made_of(made, first, second, now) && RotatableKey::drawn(
                first,
                key_size,
            ) && RotatableKey::drawn(second, key_size);
        let r = match made {
            Some(rotatable_key) => Some(Self::from_rotatable(rotatable_key)),
            None => None,
        };
        proof {
            assert(Self::made_of(r, first, second, now) && RotatableKey::drawn(first, key_size)
                && RotatableKey::drawn(second, key_size));
        }
        r
    }

    #[inline(always)]
    pub fn active_id(&self) -> (r: usize)
        ensures
            r == self.active_slot(),
    {
        self.rotatable_key.active_id()
    }

    #[inline(always)]
    pub fn inactive_id(&self) -> (r: usize)
        requires
            self.wf(),
        ensures
            r == 1 - self.active_slot(),
    {
        self.rotatable_key.inactive_id()
    }

    pub fn active_key(&self) -> (r: &Key)
        requires
            self.wf(),
        ensures
            r.secret_bytes() == self.key_bytes(self.active_slot()),
    {
        if self.active_id() == 0 {
            &self.first
        } else {
            &self.second
        }
    }

    pub fn inactive_key(&self) -> (r: &Key)
        requires
            self.wf(),
        ensures
            r.secret_bytes() == self.key_bytes(1 - self.active_slot()),
    {
        if self.active_id() == 0 {
            &self.second
        } else {
            &self.first
        }
    }

    /// The time of the last rotation, in milliseconds since the Unix epoch.
    pub fn last_updated(&self) -> (r: i64)
        ensures
            r == self.secrets().updated_at(),
    {
        self.rotatable_key.last_updated()
    }

    /// Signs `data` with the active key, by [`TOKEN_ALGORITHM`], as a payload of
    /// the two fields [`CLAIM_SERVER_NAME`] and [`CLAIM_UID`]. A token is
    /// always issued.
    pub fn encode(&self, data: &UserClaim) -> (r: Result<String, AscendingError>)
        requires
            self.wf(),
        ensures
            r matches Ok(token) && token@ == token_of(
                self.key_bytes(self.active_slot()),
                data@.0,
                data@.1,
            ) && claim_of(self.key_bytes(self.active_slot()), token@) == Some(data@),
    {
        let key = self.active_key();
        proof {
            lemma_claim_fields();
        }
        match jwt_encode(
            TOKEN_ALGORITHM,
            key.secret(),
            CLAIM_SERVER_NAME,
            data.server_name.as_str(),
            CLAIM_UID,
            data.uid,
        ) {
            Ok(token) => Ok(token),
            Err(error) => Err(AscendingError::JsonWebToken { error }),
        }
    }

    /// Reads `data` under the key in slot 0, then under the one in slot 1, and
    /// hands out the first claim found with the slot of the key that accepted
    /// it. No registered claim is asked for and no expiry is checked: a
    /// token of the broker holds neither.
    pub fn decode(&self, data: &str) -> (r: Option<(usize, UserClaim)>)
        ensures
            (match r {
                Some((slot, claim)) => Some((slot as int, claim@)),
                None => None,
            }) == self.decoded(data@),
    {
        let required: Vec<String> = Vec::new();
        assert(texts_of(required@) =~= Seq::<Seq<char>>::empty());
        match jwt_decode(
            TOKEN_ALGORITHM,
            data,
            self.first.secret(),
            CLAIM_SERVER_NAME,
            CLAIM_UID,
            &required,
            false,
        ) {
            Some((server_name, uid)) => return Some((0, UserClaim { server_name, uid })),
            None => {},
        }
        match jwt_decode(
            TOKEN_ALGORITHM,
            data,
            self.second.secret(),
            CLAIM_SERVER_NAME,
            CLAIM_UID,
            &required,
            false,
        ) {
            Some((server_name, uid)) => Some((1, UserClaim { server_name, uid })),
            None => None,
        }
    }

    /// Rotates the secrets at time `now`, as [`RotatableKey::rotate_at`]
    /// does, and makes the key of the newly active slot anew, so that each
    /// key is made of the secret in its slot afterwards as before. It
    /// rotates unless the first secret is empty; then nothing changes and
    /// the answer is `false`.
    pub fn rotate_at(&mut self, now: i64) -> (done: bool)
        requires
            old(self).wf(),
        ensures
            final(self).wf(),
            done <==> old(self).secrets().secret(0).len() >= 1,
            exists|fresh: Seq<char>|
                #[trigger] old(self).secrets().rotated_to(&final(self).secrets(), fresh, now, done)
                    && old(self).secrets().may_draw(fresh),
            !done ==> final(self).key_bytes(0) == old(self).key_bytes(0),
            !done ==> final(self).key_bytes(1) == old(self).key_bytes(1),
    {
        let done = self.rotatable_key.rotate_at(now);
        if done {
            let key = Key::from_secret(self.rotatable_key.active_key().as_bytes());
            if self.rotatable_key.active_id() == 0 {
                self.first = key;
            } else {
                self.second = key;
            }
        }
        done
    }

    /// Rotates the secrets at the current time, as
    /// [`RotatableJwtKey::rotate_at`] does.
    pub fn rotate(&mut self) -> (done: bool)
        requires
            old(self).wf(),
        ensures
            final(self).wf(),
            done <==> old(self).secrets().secret(0).len() >= 1,
            exists|fresh: Seq<char>, now: i64|
                #[trigger] old(self).secrets().rotated_to(&final(self).secrets(), fresh, now, done)
                    && old(self).secrets().may_draw(fresh),
            !done ==> final(self).key_bytes(0) == old(self).key_bytes(0),
            !done ==> final(self).key_bytes(1) == old(self).key_bytes(1),
    {
        let now = now_millis();
        let done = self.rotate_at(now);
        proof {
            let fresh = choose|fresh: Seq<char>|
                #[trigger] old(self).secrets().rotated_to(&final(self).secrets(), fresh, now, done)
                    && old(self).secrets().may_draw(fresh);
            assert(old(self).secrets().rotated_to(&final(self).secrets(), fresh, now, done)
                && old(self).secrets().may_draw(fresh));
        }
        done
    }
}

/// A token that was issued under the active key is accepted as long as that
/// key is held: at once, and after one rotation, when the key has become the
/// inactive one. After two rotations neither key held is made of its secret.
pub proof fn law_token_outlives_one_rotation(
    start: RotatableJwtKey,
    once: RotatableJwtKey,
    twice: RotatableJwtKey,
    token: Seq<char>,
    fresh1: Seq<char>,
    now1: i64,
    fresh2: Seq<char>,
    now2: i64,
)
    requires
        start.wf(),
        once.wf(),
        twice.wf(),
        claim_of(start.key_bytes(start.active_slot()), token) is Some,
        fresh1 != start.secrets().secret(0) && fresh1 != start.secrets().secret(1),
        fresh2 != once.secrets().secret(0) && fresh2 != once.secrets().secret(1),
        start.secrets().rotated(&once.secrets(), fresh1, now1),
        once.secrets().rotated(&twice.secrets(), fresh2, now2),
    ensures
        start.decoded(token) is Some,
        once.decoded(token) is Some,
        once.key_bytes(1 - once.active_slot()) == start.key_bytes(start.active_slot()),
        twice.key_bytes(0) != start.key_bytes(start.active_slot()),
        twice.key_bytes(1) != start.key_bytes(start.active_slot()),
{
    let held = start.secrets().secret(start.active_slot());
    encode_utf8_decode_utf8(held);
    encode_utf8_decode_utf8(twice.secrets().secret(0));
    encode_utf8_decode_utf8(twice.secrets().secret(1));
}

} // verus!
