//! Base64 text for audio clips, so that a clip can travel inside an event.

use vstd::prelude::*;

verus! {

/// The sixty-four characters of the standard base64 alphabet, in order.
pub open spec fn alphabet() -> Seq<char> {
    "ABCDEFGHIJKLMNOPQRSTUVWXYZabcdefghijklmnopqrstuvwxyz0123456789+/"@
}

/// The character that stands for the six-bit value `v`.
pub open spec fn sextet(v: int) -> char
    recommends
        0 <= v < 64,
{
    alphabet()[v]
}

/// The four characters for up to three bytes at the front of `bytes`; where
/// bytes are missing, `=` fills the place.
pub open spec fn encode_group(bytes: Seq<u8>) -> Seq<char>
    recommends
        bytes.len() > 0,
{
    let a = bytes[0] as int;
    if bytes.len() == 1 {
        seq![sextet(a / 4), sextet((a % 4) * 16), '=', '=']
    } else {
        let b = bytes[1] as int;
        if bytes.len() == 2 {
            seq![sextet(a / 4), sextet((a % 4) * 16 + b / 16), sextet((b % 16) * 4), '=']
        } else {
            let c = bytes[2] as int;
            seq![
                sextet(a / 4),
                sextet((a % 4) * 16 + b / 16),
                sextet((b % 16) * 4 + c / 64),
                sextet(c % 64),
            ]
        }
    }
}

/// Standard base64 with padding: every three bytes become four characters.
pub open spec fn base64(bytes: Seq<u8>) -> Seq<char>
    decreases bytes.len(),
{
    if bytes.len() == 0 {
        Seq::empty()
    } else if bytes.len() <= 3 {
        encode_group(bytes)
    } else {
        encode_group(bytes.take(3)) + base64(bytes.skip(3))
    }
}

/// The encoded text has four characters for every started group of three bytes.
pub proof fn lemma_base64_len(bytes: Seq<u8>)
    ensures
        base64(bytes).len() == 4 * ((bytes.len() + 2) / 3),
    decreases bytes.len(),
{
    if bytes.len() > 3 {
        lemma_base64_len(bytes.skip(3));
    }
}

fn sextet_str(v: u8) -> (text: &'static str)
    requires
        v < 64,
    ensures
        text@ == seq![sextet(v as int)],
{
    proof {
        reveal_strlit("ABCDEFGHIJKLMNOPQRSTUVWXYZabcdefghijklmnopqrstuvwxyz0123456789+/");
    }
    let table = "ABCDEFGHIJKLMNOPQRSTUVWXYZabcdefghijklmnopqrstuvwxyz0123456789+/";
    let text = table.substring_ascii(v as usize, v as usize + 1);
    assert(text@ =~= seq![sextet(v as int)]);
    text
}

/// Encodes `bytes` as base64 text.
pub fn encode(bytes: &[u8]) -> (text: String)
    ensures
        text@ == base64(bytes@),
{
    let mut text = String::new();
    let mut i: usize = 0;
    assert(bytes@.skip(0) =~= bytes@);
    assert(text@ + base64(bytes@) =~= base64(bytes@));
    while bytes.len() - i > 3
        invariant
            i <= bytes.len(),
            text@ + base64(bytes@.skip(i as int)) == base64(bytes@),
        decreases bytes.len() - i,
    {
        let a = bytes[i];
        let b = bytes[i + 1];
        let c = bytes[i + 2];
        let ghost before = text@;
        let ghost rest = bytes@.skip(i as int);
        text.append(sextet_str(a / 4));
        text.append(sextet_str((a % 4) * 16 + b / 16));
        text.append(sextet_str((b % 16) * 4 + c / 64));
        text.append(sextet_str(c % 64));
        proof {
            assert(rest.skip(3) =~= bytes@.skip(i as int + 3));
            assert(text@ =~= before + encode_group(rest.take(3)));
            assert(text@ + base64(rest.skip(3)) =~= before + base64(rest));
        }
        i += 3;
    }
    let ghost before = text@;
    let ghost rest = bytes@.skip(i as int);
    let left = bytes.len() - i;
    if left == 1 {
        let a = bytes[i];
        text.append(sextet_str(a / 4));
        text.append(sextet_str((a % 4) * 16));
        text.append("==");
        proof {
            reveal_strlit("==");
            assert(text@ =~= before + encode_group(rest));
        }
    } else if left == 2 {
        let a = bytes[i];
        let b = bytes[i + 1];
        text.append(sextet_str(a / 4));
        text.append(sextet_str((a % 4) * 16 + b / 16));
        text.append(sextet_str((b % 16) * 4));
        text.append("=");
        proof {
            reveal_strlit("=");
            assert(text@ =~= before + encode_group(rest));
        }
    } else if left == 3 {
        let a = bytes[i];
        let b = bytes[i + 1];
        let c = bytes[i + 2];
        text.append(sextet_str(a / 4));
        text.append(sextet_str((a % 4) * 16 + b / 16));
        text.append(sextet_str((b % 16) * 4 + c / 64));
        text.append(sextet_str(c % 64));
        proof {
            assert(text@ =~= before + encode_group(rest));
        }
    } else {
        assert(before + base64(rest) =~= before);
    }
    text
}

} // verus!
