//! Instance digests and instance names.
//!
//! An instance is named after its configuration and a short digest of the
//! device id. A shared device is digested by its id alone, so every node
//! gives it the same name; a local device is digested together with the name
//! of the node, so each node gives it a name of its own.

use blake2::digest::{Update, VariableOutput};
use blake2::VarBlake2b;
use vstd::prelude::*;
use vstd::utf8::encode_utf8;

verus! {

/// Number of bytes in an instance digest.
pub const INSTANCE_DIGEST_BYTES: usize = 3;

/// The BLAKE2b hash of `data` with an output of `output_size` bytes.
pub uninterp spec fn blake2b_var(data: Seq<u8>, output_size: nat) -> Seq<u8>;

/// Hashes `data` with `blake2::VarBlake2b`: `new` with the output size,
/// one `update` with the data, then `finalize_boxed`.
///
/// Trusted: the result is the BLAKE2b hash of the data for that output size,
/// and it is `output_size` bytes long. `new` refuses a size of zero or above
/// 64, which the precondition leaves out.
#[verifier::external_body]
fn blake2b_digest(data: &[u8], output_size: usize) -> (out: Vec<u8>)
    requires
        1 <= output_size <= 64,
    ensures
        out@ == blake2b_var(data@, output_size as nat),
        out@.len() == output_size,
{
    let mut hasher = VarBlake2b::new(output_size).unwrap();
    hasher.update(data);
    hasher.finalize_boxed().into_vec()
}

/// The lowercase hexadecimal digit for a value below sixteen.
pub open spec fn hex_digit(n: int) -> char {
    seq![
        '0', '1', '2', '3', '4', '5', '6', '7', '8', '9', 'a', 'b', 'c', 'd', 'e', 'f',
    ][n]
}

/// Two lowercase hexadecimal digits per byte, the high half first.
pub open spec fn hex_encode(bytes: Seq<u8>) -> Seq<char> {
    Seq::new(
        2 * bytes.len(),
        |i: int|
            if i % 2 == 0 {
                hex_digit(bytes[i / 2] as int / 16)
            } else {
                hex_digit(bytes[i / 2] as int % 16)
            },
    )
}

/// The text that is hashed for a device: its id, followed by the node's name
/// unless the device is shared.
pub open spec fn digest_input(id: Seq<char>, shared: bool, node_name: Seq<char>) -> Seq<char> {
    if shared {
        id
    } else {
        id + node_name
    }
}

/// The digest of a device id: six hexadecimal characters of a three-byte
/// BLAKE2b hash of the UTF-8 encoding of `digest_input`.
pub open spec fn instance_digest(id: Seq<char>, shared: bool, node_name: Seq<char>) -> Seq<char> {
    hex_encode(blake2b_var(encode_utf8(digest_input(id, shared, node_name)), 3))
}

/// The name of an instance: the configuration's name, a hyphen, the digest.
pub open spec fn instance_name(config_name: Seq<char>, digest: Seq<char>) -> Seq<char> {
    config_name + seq!['-'] + digest
}

fn hex_digit_str(n: u8) -> (s: &'static str)
    requires
        n < 16,
    ensures
        s@ == seq![hex_digit(n as int)],
{
    proof {
        reveal_strlit("0");
        reveal_strlit("1");
        reveal_strlit("2");
        reveal_strlit("3");
        reveal_strlit("4");
        reveal_strlit("5");
        reveal_strlit("6");
        reveal_strlit("7");
        reveal_strlit("8");
        reveal_strlit("9");
        reveal_strlit("a");
        reveal_strlit("b");
        reveal_strlit("c");
        reveal_strlit("d");
        reveal_strlit("e");
        reveal_strlit("f");
    }
    let s = match n {
        0 => "0",
        1 => "1",
        2 => "2",
        3 => "3",
        4 => "4",
        5 => "5",
        6 => "6",
        7 => "7",
        8 => "8",
        9 => "9",
        10 => "a",
        11 => "b",
        12 => "c",
        13 => "d",
        14 => "e",
        _ => "f",
    };
    assert(s@ =~= seq![hex_digit(n as int)]);
    s
}

/// Writes `bytes` as lowercase hexadecimal text.
pub fn to_hex(bytes: &[u8]) -> (text: String)
    ensures
        text@ == hex_encode(bytes@),
{
    let mut text = String::new();
    let mut i: usize = 0;
    while i < bytes.len()
        invariant
            i <= bytes.len(),
            text@.len() == 2 * i,
            forall|j: int|
                0 <= j < 2 * i ==> #[trigger] text@[j] == hex_encode(bytes@)[j],
        decreases bytes.len() - i,
    {
        let byte = bytes[i];
        let ghost before = text@;
        text.append(hex_digit_str(byte / 16));
        text.append(hex_digit_str(byte % 16));
        proof {
            assert(text@ =~= before + seq![hex_digit(byte as int / 16)] + seq![
                hex_digit(byte as int % 16),
            ]);
            assert forall|j: int| 0 <= j < 2 * (i + 1) implies #[trigger] text@[j] == hex_encode(
                bytes@,
            )[j] by {
                if j < 2 * i {
                    assert(text@[j] == before[j]);
                } else if j == 2 * i {
                    assert(j / 2 == i as int && j % 2 == 0);
                } else {
                    assert(j / 2 == i as int && j % 2 == 1);
                }
            }
        }
        i += 1;
    }
    assert(text@ =~= hex_encode(bytes@));
    text
}

/// Digest of a device id that names its instance. `node_name` is the name of
/// this node; it enters the digest only when the device is not shared.
pub fn inner_generate_instance_digest(
    id_to_digest: &str,
    shared: bool,
    node_name: &str,
) -> (digest: String)
    ensures
        digest@ == instance_digest(id_to_digest@, shared, node_name@),
        digest@.len() == 6,
{
    let mut input = id_to_digest.to_owned();
    if !shared {
        input.append(node_name);
    }
    let hash = blake2b_digest(input.as_str().as_bytes(), INSTANCE_DIGEST_BYTES);
    to_hex(hash.as_slice())
}

/// Name of the instance of configuration `config_name` whose digest is `id`.
pub fn get_device_instance_name(id: &str, config_name: &str) -> (name: String)
    ensures
        name@ == instance_name(config_name@, id@),
{
    proof {
        reveal_strlit("-");
    }
    let mut name = config_name.to_owned();
    name.append("-");
    name.append(id);
    assert("-"@ =~= seq!['-']);
    name
}

/// A shared device has one digest on every node.
pub proof fn lemma_shared_digest_ignores_node(id: Seq<char>, node_a: Seq<char>, node_b: Seq<char>)
    ensures
        instance_digest(id, true, node_a) == instance_digest(id, true, node_b),
{
}

} // verus!
