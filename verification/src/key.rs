use vstd::prelude::*;
use vstd::string::*;

verus! {

/// The upper-case hexadecimal digit for a nibble.
pub open spec fn hex_digit(n: u8) -> char
    recommends
        n < 16,
{
    if n < 10 {
        (48 + n) as char
    } else {
        (55 + n) as char
    }
}

/// The canonical key of an opcode: `0x` followed by two upper-case
/// hexadecimal digits, such as `0x0A` or `0xCB`.
pub open spec fn key_of(opcode: u8) -> Seq<char> {
    seq!['0', 'x', hex_digit(opcode / 16), hex_digit(opcode % 16)]
}

/// The opcode that a text is the canonical key of, if it is one.
pub open spec fn key_value(text: Seq<char>) -> Option<u8> {
    if exists|opcode: u8| text == key_of(opcode) {
        Some(choose|opcode: u8| text == key_of(opcode))
    } else {
        None
    }
}

/// Two nibbles with the same digit are the same nibble.
pub proof fn lemma_hex_digit_injective(m: u8, n: u8)
    requires
        m < 16,
        n < 16,
        hex_digit(m) == hex_digit(n),
    ensures
        m == n,
{
}

/// Two opcodes with the same canonical key are the same opcode.
pub proof fn lemma_key_injective(a: u8, b: u8)
    requires
        key_of(a) == key_of(b),
    ensures
        a == b,
{
    assert(key_of(a)[2] == key_of(b)[2]);
    assert(key_of(a)[3] == key_of(b)[3]);
    lemma_hex_digit_injective(a / 16, b / 16);
    lemma_hex_digit_injective(a % 16, b % 16);
}

/// Rendering an opcode as a key and reading the key back gives the opcode:
/// every one of the 256 opcodes has a key, and the key names no other opcode.
pub proof fn lemma_key_round_trip(opcode: u8)
    ensures
        key_value(key_of(opcode)) == Some(opcode),
{
    let found = choose|other: u8| key_of(opcode) == key_of(other);
    lemma_key_injective(opcode, found);
}

/// A text reads as an opcode exactly if it is the canonical key of that opcode.
pub proof fn lemma_key_value_inverts_key_of(text: Seq<char>, opcode: u8)
    ensures
        key_value(text) == Some(opcode) <==> text == key_of(opcode),
{
    if text == key_of(opcode) {
        lemma_key_round_trip(opcode);
    }
}

fn digit_text(n: u8) -> (text: &'static str)
    requires
        n < 16,
    ensures
        text@ == seq![hex_digit(n)],
{
    proof {
        reveal_strlit("0");
        reveal_strlit("1");
        reveal_strlit("2");
        reveal_strlit("3");
        reveal_strlit("4");
        reveal_strlit("5");
        reveal_strlit("6");
        reveal_strlit("7");
        reveal_strlit("8");
        reveal_strlit("9");
        reveal_strlit("A");
        reveal_strlit("B");
        reveal_strlit("C");
        reveal_strlit("D");
        reveal_strlit("E");
        reveal_strlit("F");
    }
    let text = match n {
        0 => "0",
        1 => "1",
        2 => "2",
        3 => "3",
        4 => "4",
        5 => "5",
        6 => "6",
        7 => "7",
        8 => "8",
        9 => "9",
        10 => "A",
        11 => "B",
        12 => "C",
        13 => "D",
        14 => "E",
        _ => "F",
    };
    assert(text@ =~= seq![hex_digit(n)]);
    text
}

fn digit_value(c: char) -> (value: Option<u8>)
    ensures
        match value {
            Some(n) => n < 16 && hex_digit(n) == c,
            None => forall|n: u8| n < 16 ==> hex_digit(n) != c,
        },
{
    let code: u32 = c as u32;
    if 48 <= code && code <= 57 {
        Some((code - 48) as u8)
    } else if 65 <= code && code <= 70 {
        Some((code - 55) as u8)
    } else {
        None
    }
}

/// Renders an opcode as its canonical key.
pub fn opcode_key(opcode: u8) -> (key: String)
    ensures
        key@ == key_of(opcode),
{
    proof {
        reveal_strlit("0x");
    }
    let mut key = String::from_str("0x");
    key.append(digit_text(opcode / 16));
    key.append(digit_text(opcode % 16));
    assert(key@ =~= key_of(opcode));
    key
}

/// Reads a canonical key back into its opcode. Any other text, including a
/// key in lower case, without the prefix or of another width, is no key.
pub fn parse_key(key: &str) -> (opcode: Option<u8>)
    ensures
        opcode == key_value(key@),
{
    if key.unicode_len() != 4 {
        assert(forall|b: u8| key_of(b).len() == 4);
        return None;
    }
    if key.get_char(0) != '0' || key.get_char(1) != 'x' {
        assert(forall|b: u8| key_of(b)[0] == '0' && key_of(b)[1] == 'x');
        return None;
    }
    match (digit_value(key.get_char(2)), digit_value(key.get_char(3))) {
        (Some(high), Some(low)) => {
            let opcode: u8 = high * 16 + low;
            assert(opcode / 16 == high && opcode % 16 == low);
            assert(key@ =~= key_of(opcode));
            proof {
                lemma_key_round_trip(opcode);
            }
            Some(opcode)
        },
        _ => {
            assert forall|b: u8| key@ != key_of(b) by {
                assert(key_of(b)[2] == hex_digit(b / 16));
                assert(key_of(b)[3] == hex_digit(b % 16));
            }
            None
        },
    }
}

} // verus!
