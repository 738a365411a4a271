//! What the authorization service supplies: the client's standing, its bearer
//! token and the notices addressed to it. The library reads these and never
//! changes them.

use vstd::prelude::*;
use vstd::slice::slice_to_vec;
use vstd::string::StringSliceAdditionalSpecFns;
use sha2::Digest;

verus! {

/// A notice from the service, passed on to the user interface as it is.
#[derive(Clone, Debug, PartialEq, Eq)]
pub struct ServerMessage {
    pub id: String,
    pub type_str: Option<String>,
    pub title: String,
    pub body: String,
    pub action_url: Option<String>,
}

/// The client's standing with the service.
#[derive(Clone, Debug, PartialEq, Eq)]
pub struct ClientStatus {
    /// "trial", "active" or "banned".
    pub status: String,
    pub valid_until: String,
    pub signature: String,
    pub token: String,
    pub now: String,
    pub messages: Vec<ServerMessage>,
}

impl ClientStatus {
    /// Whether the service has banned this client.
    pub open spec fn banned(&self) -> bool {
        self.status@ == "banned"@
    }

    /// Tests `banned`.
    pub fn is_banned(&self) -> (banned: bool)
        ensures
            banned == self.banned(),
    {
        let word = String::from_str("banned");
        self.status == word
    }
}

/// The SHA-256 digest of a sequence of bytes, as `sha2` computes it.
pub uninterp spec fn sha256_digest(data: Seq<u8>) -> Seq<u8>;

/// Hashes `data` with `sha2::Sha256::digest`.
///
/// Trusted: the result is the digest that `sha256_digest` names, a function
/// of the bytes alone.
#[verifier::external_body]
fn sha256(data: &Vec<u8>) -> (digest: Vec<u8>)
    ensures
        digest@ == sha256_digest(data@),
{
    sha2::Sha256::digest(data.as_slice()).to_vec()
}

/// The lowercase hexadecimal digit of a value below 16.
pub open spec fn hex_char(nibble: int) -> char
    recommends
        0 <= nibble < 16,
{
    seq![
        '0',
        '1',
        '2',
        '3',
        '4',
        '5',
        '6',
        '7',
        '8',
        '9',
        'a',
        'b',
        'c',
        'd',
        'e',
        'f',
    ][nibble]
}

/// The bytes in lowercase hexadecimal: two digits for each byte, the high
/// half first.
pub open spec fn lower_hex(bytes: Seq<u8>) -> Seq<char> {
    Seq::new(
        2 * bytes.len(),
        |i: int|
            hex_char(
                if i % 2 == 0 {
                    bytes[i / 2] as int / 16
                } else {
                    bytes[i / 2] as int % 16
                },
            ),
    )
}

/// The bytes that are hashed behind the device's identifier.
pub open spec fn salt() -> Seq<u8> {
    "v2t-salt-2026".spec_bytes()
}

/// The bytes that identify the device: those of the identifier that the host
/// reports, or of the words `unknown_device` where it reports none.
pub open spec fn device_bytes(uid: Option<&str>) -> Seq<u8> {
    match uid {
        Some(uid) => uid.spec_bytes(),
        None => "unknown_device".spec_bytes(),
    }
}

fn hex_digit(nibble: u8) -> (digit: &'static str)
    requires
        nibble < 16,
    ensures
        digit@ == seq![hex_char(nibble as int)],
{
    proof {
        reveal_strlit("0");
        reveal_strlit("1");
        reveal_strlit("2");
        reveal_strlit("3");
        reveal_strlit("4");
        reveal_strlit("5");
        reveal_strlit("6");
        reveal_strlit("7");
        reveal_strlit("8");
        reveal_strlit("9");
        reveal_strlit("a");
        reveal_strlit("b");
        reveal_strlit("c");
        reveal_strlit("d");
        reveal_strlit("e");
        reveal_strlit("f");
    }
    let digit = match nibble {
        0 => "0",
        1 => "1",
        2 => "2",
        3 => "3",
        4 => "4",
        5 => "5",
        6 => "6",
        7 => "7",
        8 => "8",
        9 => "9",
        10 => "a",
        11 => "b",
        12 => "c",
        13 => "d",
        14 => "e",
        _ => "f",
    };
    assert(digit@ =~= seq![hex_char(nibble as int)]);
    digit
}

/// Writes bytes in lowercase hexadecimal.
pub fn to_lower_hex(bytes: &Vec<u8>) -> (text: String)
    ensures
        text@ == lower_hex(bytes@),
{
    let mut text = String::new();
    let mut i: usize = 0;
    while i < bytes.len()
        invariant
            i <= bytes@.len(),
            text@ == lower_hex(bytes@.take(i as int)),
        decreases bytes@.len() - i,
    {
        let byte = bytes[i];
        let ghost before = text@;
        text.append(hex_digit(byte / 16));
        text.append(hex_digit(byte % 16));
        i += 1;
        proof {
            let sooner = bytes@.take(i - 1);
            let now = bytes@.take(i as int);
            assert(text@ == before + seq![hex_char(byte as int / 16)] + seq![
                hex_char(byte as int % 16),
            ]);
            assert forall|j: int| 0 <= j < 2 * now.len() implies text@[j] == lower_hex(now)[j] by {
                if j < 2 * sooner.len() {
                    assert(sooner[j / 2] == now[j / 2]);
                    assert(text@[j] == lower_hex(sooner)[j]);
                }
            }
            assert(text@ =~= lower_hex(now));
        }
    }
    assert(bytes@.take(bytes@.len() as int) =~= bytes@);
    text
}

/// The identifier under which the device is known to the service: the
/// SHA-256 digest, in lowercase hexadecimal, of the host's identifier for the
/// device followed by the salt.
pub fn get_hw_id(uid: Option<&str>) -> (id: String)
    ensures
        id@ == lower_hex(sha256_digest(device_bytes(uid) + salt())),
{
    let name = match uid {
        Some(uid) => uid,
        None => "unknown_device",
    };
    let mut data = slice_to_vec(name.as_bytes());
    let mut salt = slice_to_vec("v2t-salt-2026".as_bytes());
    data.append(&mut salt);
    let digest = sha256(&data);
    to_lower_hex(&digest)
}

} // verus!
