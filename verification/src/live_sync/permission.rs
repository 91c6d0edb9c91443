//! Roles, sessions and sealed permission links.

use crate::clock::{random_u64, unix_seconds};
use crate::text::{
    chars_from, find_char, first_index, from_chars, hex, left_padded, occurs, push_hex_padded,
    same_text, strip_leading, to_chars, without_leading,
};
use vstd::prelude::*;

verus! {

broadcast use vstd::string::group_string_axioms;

/// What a participant of a session may do.
#[derive(Debug, Clone, Copy, PartialEq, Eq, Structural)]
pub enum SyncRole {
    /// May read.
    Viewer,
    /// May read and comment.
    Commenter,
    /// May read, comment and edit.
    Editor,
}

impl SyncRole {
    /// Whether the role may edit: only an editor may.
    pub fn can_edit(&self) -> (r: bool)
        ensures
            r == (*self == SyncRole::Editor),
    {
        match self {
            SyncRole::Editor => true,
            _ => false,
        }
    }

    /// Whether the role may comment: a commenter and an editor may.
    pub fn can_comment(&self) -> (r: bool)
        ensures
            r == (*self == SyncRole::Commenter || *self == SyncRole::Editor),
    {
        match self {
            SyncRole::Commenter | SyncRole::Editor => true,
            _ => false,
        }
    }
}

/// Whether `role` may do what `action` names: anyone may "view", "comment"
/// and "edit" go by the role, and nobody may do anything else.
pub open spec fn permitted(role: SyncRole, action: Seq<char>) -> bool {
    if action == "view"@ {
        true
    } else if action == "comment"@ {
        role == SyncRole::Commenter || role == SyncRole::Editor
    } else if action == "edit"@ {
        role == SyncRole::Editor
    } else {
        false
    }
}

/// Tells whether a role may perform an action.
pub fn validate_permission(role: SyncRole, action: &str) -> (r: bool)
    ensures
        r == permitted(role, action@),
{
    if same_text(action, "view") {
        true
    } else if same_text(action, "comment") {
        role.can_comment()
    } else if same_text(action, "edit") {
        role.can_edit()
    } else {
        false
    }
}

/// What a permission link grants.
#[derive(Debug, Clone)]
pub struct PermissionToken {
    pub session_id: String,
    pub role: SyncRole,
    pub created_at: u64,
    pub expires_at: Option<u64>,
    pub creator_id: String,
}

/// A session that others can be invited to.
#[derive(Debug, Clone)]
pub struct SyncSession {
    pub id: String,
    pub name: String,
    /// The 32-byte key of the session in URL-safe base64 without padding.
    pub secret_key: String,
    pub created_at: u64,
    pub host_id: String,
}

/// The URL-safe base64 text, without padding, of a byte sequence, as the
/// `base64` crate's `URL_SAFE_NO_PAD` engine encodes it.
pub uninterp spec fn base64url(bytes: Seq<u8>) -> Seq<char>;

/// The bytes that the `base64` crate's `URL_SAFE_NO_PAD` engine decodes a
/// text to, or nothing where it rejects the text.
pub uninterp spec fn base64url_decoded(text: Seq<char>) -> Option<Seq<u8>>;

/// The error with which `base64` rejects a text.
#[verifier::external_type_specification]
#[verifier::external_body]
pub struct ExDecodeError(base64::DecodeError);

/// `Engine::encode` of `URL_SAFE_NO_PAD`. It panics where the length of the
/// text would not fit in `usize`, which the precondition rules out. Decoding
/// undoes it.
#[verifier::external_body]
pub(crate) fn encode_url(bytes: &[u8]) -> (r: String)
    requires
        bytes.len() / 3 * 4 + 4 <= usize::MAX,
    ensures
        r@ == base64url(bytes@),
        base64url_decoded(r@) == Some(bytes@),
{
    base64::Engine::encode(&base64::engine::general_purpose::URL_SAFE_NO_PAD, bytes)
}

/// `Engine::decode` of `URL_SAFE_NO_PAD`: the outcome depends on the text
/// alone.
#[verifier::external_body]
pub(crate) fn decode_url(text: &str) -> (r: Result<Vec<u8>, base64::DecodeError>)
    ensures
        match r {
            Ok(v) => base64url_decoded(text@) == Some(v@),
            Err(_) => base64url_decoded(text@) is None,
        },
{
    base64::Engine::decode(&base64::engine::general_purpose::URL_SAFE_NO_PAD, text)
}

/// The `Display` text of a `base64::DecodeError`. Nothing is known of it.
#[verifier::external_body]
pub(crate) fn decode_error_text(e: &base64::DecodeError) -> String {
    e.to_string()
}

/// The byte that masks position `i`: key and nonce, each repeated, combined
/// by exclusive or.
pub open spec fn mask_byte(key: Seq<u8>, nonce: Seq<u8>, i: int) -> u8 {
    key[i % 32] ^ nonce[i % 12]
}

/// `data` under the mask of `key` and `nonce`.
pub open spec fn masked(data: Seq<u8>, key: Seq<u8>, nonce: Seq<u8>) -> Seq<u8> {
    Seq::new(data.len(), |i: int| data[i] ^ mask_byte(key, nonce, i))
}

/// A sealed token: the nonce, then the masked data.
pub open spec fn sealed(data: Seq<u8>, key: Seq<u8>, nonce: Seq<u8>) -> Seq<u8> {
    nonce + masked(data, key, nonce)
}

/// The data of a sealed token: nothing where it is too short to hold a
/// nonce.
pub open spec fn opened(encrypted: Seq<u8>, key: Seq<u8>) -> Option<Seq<u8>> {
    if encrypted.len() < 12 {
        None
    } else {
        Some(masked(encrypted.skip(12), key, encrypted.take(12)))
    }
}

/// Opening a sealed token with the same key gives the data back.
pub proof fn law_open_undoes_seal(data: Seq<u8>, key: Seq<u8>, nonce: Seq<u8>)
    requires
        key.len() == 32,
        nonce.len() == 12,
    ensures
        opened(sealed(data, key, nonce), key) == Some(data),
{
    let s = sealed(data, key, nonce);
    assert(s.take(12) =~= nonce);
    assert(s.skip(12) =~= masked(data, key, nonce));
    assert forall|i: int| 0 <= i < data.len() implies masked(
        masked(data, key, nonce),
        key,
        nonce,
    )[i] == data[i] by {
        let d = data[i];
        let m = mask_byte(key, nonce, i);
        assert((d ^ m) ^ m == d) by (bit_vector);
    }
    assert(masked(masked(data, key, nonce), key, nonce) =~= data);
}

/// Seals `data` under `key` with the given nonce.
pub fn encrypt_with_nonce(data: &[u8], key: &[u8; 32], nonce: &[u8; 12]) -> (out: Vec<u8>)
    requires
        data.len() <= usize::MAX - 12,
    ensures
        out@ == sealed(data@, key@, nonce@),
{
    let mut out: Vec<u8> = Vec::new();
    let mut n: usize = 0;
    while n < 12
        invariant
            n <= 12,
            out@ == nonce@.take(n as int),
        decreases 12 - n,
    {
        out.push(nonce[n]);
        assert(out@ =~= nonce@.take(n + 1));
        n += 1;
    }
    assert(nonce@.take(12) =~= nonce@);
    let mut i: usize = 0;
    while i < data.len()
        invariant
            i <= data.len(),
            out@ == nonce@ + masked(data@, key@, nonce@).take(i as int),
        decreases data.len() - i,
    {
        let key_byte = key[i % 32] ^ nonce[i % 12];
        out.push(data[i] ^ key_byte);
        assert(out@ =~= nonce@ + masked(data@, key@, nonce@).take(i + 1));
        i += 1;
    }
    assert(masked(data@, key@, nonce@).take(data.len() as int) =~= masked(data@, key@, nonce@));
    out
}

/// The bytes of a 64-bit number, least significant first.
pub open spec fn le_bytes(v: u64) -> Seq<u8> {
    Seq::new(8, |j: int| ((v >> ((8 * j) as u64)) & 0xff) as u8)
}

fn byte_of(v: u64, j: u64) -> (b: u8)
    requires
        j < 8,
    ensures
        b == le_bytes(v)[j as int],
{
    let shifted: u64 = v >> (8 * j);
    let low: u64 = shifted & 0xff;
    assert(low <= 0xff) by (bit_vector)
        requires
            low == shifted & 0xff,
    ;
    low as u8
}

/// Draws a 32-byte key: four random 64-bit numbers, each least significant
/// byte first.
pub fn generate_key() -> (key: [u8; 32]) {
    let a = random_u64();
    let b = random_u64();
    let c = random_u64();
    let d = random_u64();
    key_from(a, b, c, d)
}

/// The 32 bytes of four 64-bit numbers, each least significant byte first.
pub open spec fn key_bytes(a: u64, b: u64, c: u64, d: u64) -> Seq<u8> {
    le_bytes(a) + le_bytes(b) + le_bytes(c) + le_bytes(d)
}

/// Makes a 32-byte key of four 64-bit numbers.
pub fn key_from(a: u64, b: u64, c: u64, d: u64) -> (key: [u8; 32])
    ensures
        key@ == key_bytes(a, b, c, d),
{
    let key = [
        byte_of(a, 0),
        byte_of(a, 1),
        byte_of(a, 2),
        byte_of(a, 3),
        byte_of(a, 4),
        byte_of(a, 5),
        byte_of(a, 6),
        byte_of(a, 7),
        byte_of(b, 0),
        byte_of(b, 1),
        byte_of(b, 2),
        byte_of(b, 3),
        byte_of(b, 4),
        byte_of(b, 5),
        byte_of(b, 6),
        byte_of(b, 7),
        byte_of(c, 0),
        byte_of(c, 1),
        byte_of(c, 2),
        byte_of(c, 3),
        byte_of(c, 4),
        byte_of(c, 5),
        byte_of(c, 6),
        byte_of(c, 7),
        byte_of(d, 0),
        byte_of(d, 1),
        byte_of(d, 2),
        byte_of(d, 3),
        byte_of(d, 4),
        byte_of(d, 5),
        byte_of(d, 6),
        byte_of(d, 7),
    ];
    assert(key@ =~= key_bytes(a, b, c, d));
    key
}

/// Draws an identifier: a random 64-bit number as sixteen hexadecimal digits.
pub fn generate_id() -> (id: String)
    ensures
        exists|v: u64| id@ == left_padded(hex(v as nat), 16),
{
    let v = random_u64();
    let mut id = String::new();
    push_hex_padded(&mut id, v, 16);
    assert(id@ =~= left_padded(hex(v as nat), 16));
    id
}

/// Seals `data` under `key` with a nonce drawn for the occasion: whatever the
/// nonce, the result opens to `data` again.
pub fn encrypt_token(data: &[u8], key: &[u8; 32]) -> (out: Vec<u8>)
    requires
        data.len() <= usize::MAX - 12,
    ensures
        out@.len() == data@.len() + 12,
        opened(out@, key@) == Some(data@),
{
    let k = generate_key();
    let nonce: [u8; 12] = [k[0], k[1], k[2], k[3], k[4], k[5], k[6], k[7], k[8], k[9], k[10], k[11]];
    proof {
        law_open_undoes_seal(data@, key@, nonce@);
    }
    encrypt_with_nonce(data, key, &nonce)
}

/// Opens a sealed token; a token too short to hold a nonce is refused.
pub fn decrypt_token(encrypted: &[u8], key: &[u8; 32]) -> (r: Option<Vec<u8>>)
    ensures
        match r {
            Some(v) => opened(encrypted@, key@) == Some(v@),
            None => opened(encrypted@, key@) is None,
        },
{
    if encrypted.len() < 12 {
        return None;
    }
    let ghost nonce = encrypted@.take(12);
    let ghost rest = encrypted@.skip(12);
    let n: usize = encrypted.len() - 12;
    let mut out: Vec<u8> = Vec::new();
    let mut i: usize = 0;
    while i < n
        invariant
            i <= n,
            n == encrypted.len() - 12,
            encrypted.len() >= 12,
            nonce == encrypted@.take(12),
            rest == encrypted@.skip(12),
            out@ == masked(rest, key@, nonce).take(i as int),
        decreases n - i,
    {
        let key_byte = key[i % 32] ^ encrypted[i % 12];
        assert(encrypted@[(i % 12) as int] == nonce[(i % 12) as int]);
        assert(encrypted@[12 + i] == rest[i as int]);
        out.push(encrypted[12 + i] ^ key_byte);
        assert(out@ =~= masked(rest, key@, nonce).take(i + 1));
        i += 1;
    }
    assert(masked(rest, key@, nonce).take(n as int) =~= masked(rest, key@, nonce));
    Some(out)
}

/// The key that a session's secret stands for: its base64 decoding, where
/// that has 32 bytes.
pub open spec fn session_key(secret: Seq<char>) -> Option<Seq<u8>> {
    match base64url_decoded(secret) {
        Some(k) => if k.len() == 32 {
            Some(k)
        } else {
            None
        },
        None => None,
    }
}

/// Reads the key of a session from its secret. The error says that the text
/// is no base64 or that the key has not 32 bytes.
pub fn read_key(secret: &str) -> (r: Result<[u8; 32], String>)
    ensures
        match r {
            Ok(k) => session_key(secret@) == Some(k@),
            Err(_) => session_key(secret@) is None,
        },
        base64url_decoded(secret@) matches Some(k) && k.len() != 32 ==> (r matches Err(msg)
            && msg@ == "Invalid key length"@),
{
    match decode_url(secret) {
        Ok(v) => {
            if v.len() != 32 {
                return Err("Invalid key length".to_string());
            }
            let key: [u8; 32] = [
                v[0],
                v[1],
                v[2],
                v[3],
                v[4],
                v[5],
                v[6],
                v[7],
                v[8],
                v[9],
                v[10],
                v[11],
                v[12],
                v[13],
                v[14],
                v[15],
                v[16],
                v[17],
                v[18],
                v[19],
                v[20],
                v[21],
                v[22],
                v[23],
                v[24],
                v[25],
                v[26],
                v[27],
                v[28],
                v[29],
                v[30],
                v[31],
            ];
            assert(key@ =~= v@);
            Ok(key)
        },
        Err(e) => Err(decode_error_text(&e)),
    }
}

/// Opens a new session under the given name, with a fresh identifier, a fresh
/// key and the current time. It never fails.
pub fn create_sync_session(name: String) -> (r: Result<SyncSession, String>)
    ensures
        r matches Ok(s) && s.name@ == name@ && session_key(s.secret_key@) is Some,
{
    let key = generate_key();
    let secret_key = encode_url(key.as_slice());
    let session = SyncSession {
        id: generate_id(),
        name,
        secret_key,
        created_at: unix_seconds(),
        host_id: generate_id(),
    };
    Ok(session)
}

/// The time at which a token made at `now` runs out: `hours` hours later, and
/// never where no number of hours is given. A time beyond the range of the
/// clock is held at its end.
pub open spec fn expiry(now: u64, hours: Option<u64>) -> Option<u64> {
    match hours {
        Some(h) => Some(
            if now + h * 3600 > u64::MAX {
                u64::MAX
            } else {
                (now + h * 3600) as u64
            },
        ),
        None => None,
    }
}

/// The token that admits to `session` in the given role.
pub fn new_token(session: &SyncSession, role: SyncRole, now: u64, expires_hours: Option<u64>) -> (t:
    PermissionToken)
    ensures
        t.session_id@ == session.id@,
        t.role == role,
        t.created_at == now,
        t.expires_at == expiry(now, expires_hours),
        t.creator_id@ == session.host_id@,
{
    let expires_at = match expires_hours {
        Some(h) => {
            let wide: u128 = now as u128 + (h as u128) * 3600;
            Some(
                if wide > 0xffff_ffff_ffff_ffff {
                    0xffff_ffff_ffff_ffff
                } else {
                    wide as u64
                },
            )
        },
        None => None,
    };
    PermissionToken {
        session_id: session.id.clone(),
        role,
        created_at: now,
        expires_at,
        creator_id: session.host_id.clone(),
    }
}

/// The scheme and path that every permission link starts with.
pub open spec fn link_prefix() -> Seq<char> {
    "rook://sync/"@
}

/// The link that carries `encoded` for the session `session_id`.
pub open spec fn link_text(session_id: Seq<char>, encoded: Seq<char>) -> Seq<char> {
    link_prefix() + session_id + seq!['/'] + encoded
}

/// Seals the serialized token `json` under the key of `session` and puts it
/// in a link. It fails where the secret of the session is no 32-byte key, or
/// for a token of about `usize::MAX / 2` bytes or more.
pub fn seal_link(session: &SyncSession, json: &[u8]) -> (r: Result<String, String>)
    ensures
        session_key(session.secret_key@) is None ==> r is Err,
        session_key(session.secret_key@) is Some && json.len() < usize::MAX / 2 ==> (r matches Ok(
            link,
        ) && exists|encrypted: Seq<u8>|
            {
                &&& opened(encrypted, session_key(session.secret_key@).unwrap()) == Some(json@)
                &&& link@ == link_text(session.id@, base64url(encrypted))
            }),
{
    let key = match read_key(session.secret_key.as_str()) {
        Ok(k) => k,
        Err(e) => {
            return Err(e);
        },
    };
    if json.len() >= usize::MAX / 2 {
        return Err("Token too large".to_string());
    }
    let encrypted = encrypt_token(json, &key);
    let encoded = encode_url(encrypted.as_slice());
    let mut link = "rook://sync/".to_string();
    link.append(session.id.as_str());
    crate::text::push_char(&mut link, '/');
    link.append(encoded.as_str());
    assert(link@ =~= link_text(session.id@, base64url(encrypted@)));
    Ok(link)
}

/// The two parts of a link, session identifier and encoded token: what
/// follows the link prefix must be two parts with one slash between them.
pub open spec fn link_parts(link: Seq<char>) -> Option<(Seq<char>, Seq<char>)> {
    let rest = without_leading(link, link_prefix());
    if occurs(rest, '/') {
        let at = first_index(rest, '/');
        let tail = rest.skip(at + 1);
        if occurs(tail, '/') {
            None
        } else {
            Some((rest.take(at), tail))
        }
    } else {
        None
    }
}

/// Splits a link into session identifier and encoded token.
pub fn split_link(link: &str) -> (r: Option<(String, String)>)
    ensures
        match r {
            Some((id, token)) => link_parts(link@) == Some((id@, token@)),
            None => link_parts(link@) is None,
        },
{
    let chars = to_chars(link);
    let prefix = to_chars("rook://sync/");
    proof {
        reveal_strlit("rook://sync/");
    }
    let rest = strip_leading(&chars, &prefix);
    match find_char(&rest, '/') {
        None => None,
        Some(at) => {
            let tail = chars_from(&rest, at + 1);
            match find_char(&tail, '/') {
                Some(_) => None,
                None => {
                    let id = from_chars(&rest, 0, at);
                    let token = from_chars(&tail, 0, tail.len());
                    assert(tail@.subrange(0, tail.len() as int) =~= tail@);
                    assert(rest@.subrange(0, at as int) =~= rest@.take(at as int));
                    Some((id, token))
                },
            }
        },
    }
}

/// What opening a link with a secret gives: the session identifier that the
/// link names and the serialized token; nothing for a link of the wrong
/// shape, a token that is no base64, a secret that is no 32-byte key, or a
/// token too short to hold a nonce.
pub open spec fn link_content(link: Seq<char>, secret: Seq<char>) -> Option<(Seq<char>, Seq<u8>)> {
    match link_parts(link) {
        None => None,
        Some((id, token)) => match (base64url_decoded(token), session_key(secret)) {
            (Some(encrypted), Some(key)) => match opened(encrypted, key) {
                Some(data) => Some((id, data)),
                None => None,
            },
            _ => None,
        },
    }
}

/// Opens a permission link with the secret of the session.
pub fn open_link(link: &str, secret_key: &str) -> (r: Result<(String, Vec<u8>), String>)
    ensures
        match r {
            Ok((id, data)) => link_content(link@, secret_key@) == Some((id@, data@)),
            Err(_) => link_content(link@, secret_key@) is None,
        },
        link_parts(link@) is None ==> (r matches Err(msg) && msg@ == "Invalid link format"@),
{
    let (id, token) = match split_link(link) {
        Some(parts) => parts,
        None => {
            return Err("Invalid link format".to_string());
        },
    };
    let encrypted = match decode_url(token.as_str()) {
        Ok(v) => v,
        Err(e) => {
            let mut msg = "Decode error: ".to_string();
            msg.append(decode_error_text(&e).as_str());
            return Err(msg);
        },
    };
    let key = match read_key(secret_key) {
        Ok(k) => k,
        Err(e) => {
            return Err(e);
        },
    };
    match decrypt_token(encrypted.as_slice(), &key) {
        Some(data) => Ok((id, data)),
        None => Err("Decryption failed".to_string()),
    }
}

/// A token is good at the time `now` for the session that a link names: it
/// has not run out and it names the same session.
pub open spec fn token_verdict(
    expires_at: Option<u64>,
    session_id: Seq<char>,
    named: Seq<char>,
    now: u64,
) -> Option<Seq<char>> {
    if expires_at matches Some(e) && now > e {
        Some("Token expired"@)
    } else if session_id != named {
        Some("Session ID mismatch"@)
    } else {
        None
    }
}

/// Checks a token read from a link: an error says that it ran out or that it
/// was made for another session.
pub fn check_token(token: &PermissionToken, named_session: &str, now: u64) -> (r: Result<
    (),
    String,
>)
    ensures
        match r {
            Ok(_) => token_verdict(token.expires_at, token.session_id@, named_session@, now)
                is None,
            Err(msg) => token_verdict(token.expires_at, token.session_id@, named_session@, now)
                == Some(msg@),
        },
{
    match token.expires_at {
        Some(expires) => {
            if now > expires {
                return Err("Token expired".to_string());
            }
        },
        None => {},
    }
    if !same_text(token.session_id.as_str(), named_session) {
        return Err("Session ID mismatch".to_string());
    }
    Ok(())
}

} // verus!
