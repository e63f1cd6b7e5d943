//! The link codec: a bijection between small ranks and short base-32 tokens.
//!
//! A token is 1 to 3 symbols from a fixed 32-symbol alphabet (digits and
//! lowercase letters, excluding the visually ambiguous `i`, `l`, `o` and
//! `u`). Values in `[0, 32768)` encode to exactly as many symbols as needed;
//! anything larger encodes to the empty token, and decoding rejects empty,
//! overlong and out-of-alphabet input.

use vstd::prelude::*;

verus! {

/// One symbol above the largest encodable value: `32 * 32 * 32`.
pub const RANK_LIMIT: usize = 32768;

/// The alphabet symbol for one base-32 digit, for digits in `[0, 32)`.
pub open spec fn digit_char(d: int) -> char {
    if d == 0 {
        '0'
    } else if d == 1 {
        '1'
    } else if d == 2 {
        '2'
    } else if d == 3 {
        '3'
    } else if d == 4 {
        '4'
    } else if d == 5 {
        '5'
    } else if d == 6 {
        '6'
    } else if d == 7 {
        '7'
    } else if d == 8 {
        '8'
    } else if d == 9 {
        '9'
    } else if d == 10 {
        'a'
    } else if d == 11 {
        'b'
    } else if d == 12 {
        'c'
    } else if d == 13 {
        'd'
    } else if d == 14 {
        'e'
    } else if d == 15 {
        'f'
    } else if d == 16 {
        'g'
    } else if d == 17 {
        'h'
    } else if d == 18 {
        'j'
    } else if d == 19 {
        'k'
    } else if d == 20 {
        'm'
    } else if d == 21 {
        'n'
    } else if d == 22 {
        'p'
    } else if d == 23 {
        'q'
    } else if d == 24 {
        'r'
    } else if d == 25 {
        's'
    } else if d == 26 {
        't'
    } else if d == 27 {
        'v'
    } else if d == 28 {
        'w'
    } else if d == 29 {
        'x'
    } else if d == 30 {
        'y'
    } else {
        'z'
    }
}

/// The digit a symbol stands for, or `-1` for a character outside the
/// alphabet.
pub open spec fn digit_value(c: char) -> int {
    if c == '0' {
        0
    } else if c == '1' {
        1
    } else if c == '2' {
        2
    } else if c == '3' {
        3
    } else if c == '4' {
        4
    } else if c == '5' {
        5
    } else if c == '6' {
        6
    } else if c == '7' {
        7
    } else if c == '8' {
        8
    } else if c == '9' {
        9
    } else if c == 'a' {
        10
    } else if c == 'b' {
        11
    } else if c == 'c' {
        12
    } else if c == 'd' {
        13
    } else if c == 'e' {
        14
    } else if c == 'f' {
        15
    } else if c == 'g' {
        16
    } else if c == 'h' {
        17
    } else if c == 'j' {
        18
    } else if c == 'k' {
        19
    } else if c == 'm' {
        20
    } else if c == 'n' {
        21
    } else if c == 'p' {
        22
    } else if c == 'q' {
        23
    } else if c == 'r' {
        24
    } else if c == 's' {
        25
    } else if c == 't' {
        26
    } else if c == 'v' {
        27
    } else if c == 'w' {
        28
    } else if c == 'x' {
        29
    } else if c == 'y' {
        30
    } else if c == 'z' {
        31
    } else {
        -1
    }
}

/// Whether a character belongs to the token alphabet.
pub open spec fn is_link_char(c: char) -> bool {
    digit_value(c) >= 0
}

/// The token a value encodes to: its base-32 digits, most significant first,
/// with no leading zero digits, or the empty sequence for a value outside
/// `[0, 32768)`.
pub open spec fn token_of(v: int) -> Seq<char> {
    if 0 <= v < 32 {
        seq![digit_char(v)]
    } else if 32 <= v < 1024 {
        seq![digit_char(v / 32), digit_char(v % 32)]
    } else if 1024 <= v < 32768 {
        seq![digit_char(v / 1024), digit_char((v % 1024) / 32), digit_char((v % 1024) % 32)]
    } else {
        Seq::empty()
    }
}

/// The value a token decodes to: the base-32 reading of 1 to 3 alphabet
/// symbols, and `None` for empty, overlong or out-of-alphabet input.
pub open spec fn value_of(s: Seq<char>) -> Option<int> {
    if s.len() == 1 {
        if is_link_char(s[0]) {
            Some(digit_value(s[0]))
        } else {
            None
        }
    } else if s.len() == 2 {
        if is_link_char(s[0]) && is_link_char(s[1]) {
            Some(digit_value(s[0]) * 32 + digit_value(s[1]))
        } else {
            None
        }
    } else if s.len() == 3 {
        if is_link_char(s[0]) && is_link_char(s[1]) && is_link_char(s[2]) {
            Some(digit_value(s[0]) * 1024 + digit_value(s[1]) * 32 + digit_value(s[2]))
        } else {
            None
        }
    } else {
        None
    }
}

/// The one-symbol string for one base-32 digit.
fn digit_str(d: usize) -> (r: &'static str)
    requires
        d < 32,
    ensures
        r@ =~= seq![digit_char(d as int)],
{
    proof {
        reveal_strlit("0");
        reveal_strlit("1");
        reveal_strlit("2");
        reveal_strlit("3");
        reveal_strlit("4");
        reveal_strlit("5");
        reveal_strlit("6");
        reveal_strlit("7");
        reveal_strlit("8");
        reveal_strlit("9");
        reveal_strlit("a");
        reveal_strlit("b");
        reveal_strlit("c");
        reveal_strlit("d");
        reveal_strlit("e");
        reveal_strlit("f");
        reveal_strlit("g");
        reveal_strlit("h");
        reveal_strlit("j");
        reveal_strlit("k");
        reveal_strlit("m");
        reveal_strlit("n");
        reveal_strlit("p");
        reveal_strlit("q");
        reveal_strlit("r");
        reveal_strlit("s");
        reveal_strlit("t");
        reveal_strlit("v");
        reveal_strlit("w");
        reveal_strlit("x");
        reveal_strlit("y");
        reveal_strlit("z");
    }
    match d {
        0 => "0",
        1 => "1",
        2 => "2",
        3 => "3",
        4 => "4",
        5 => "5",
        6 => "6",
        7 => "7",
        8 => "8",
        9 => "9",
        10 => "a",
        11 => "b",
        12 => "c",
        13 => "d",
        14 => "e",
        15 => "f",
        16 => "g",
        17 => "h",
        18 => "j",
        19 => "k",
        20 => "m",
        21 => "n",
        22 => "p",
        23 => "q",
        24 => "r",
        25 => "s",
        26 => "t",
        27 => "v",
        28 => "w",
        29 => "x",
        30 => "y",
        _ => "z",
    }
}

/// The symbol of a digit in `[0, 32)` always reads back as that digit.
pub proof fn lemma_digit_roundtrip(d: int)
    requires
        0 <= d < 32,
    ensures
        digit_value(digit_char(d)) == d,
{
}

/// Round trip of the codec: every value in `[0, 32768)` decodes back from
/// its own token.
pub proof fn lemma_token_roundtrip(v: int)
    requires
        0 <= v < 32768,
    ensures
        value_of(token_of(v)) == Some(v),
{
    if v < 32 {
        lemma_digit_roundtrip(v);
    } else if v < 1024 {
        vstd::arithmetic::div_mod::lemma_fundamental_div_mod(v, 32);
        lemma_digit_roundtrip(v / 32);
        lemma_digit_roundtrip(v % 32);
    } else {
        vstd::arithmetic::div_mod::lemma_fundamental_div_mod(v, 1024);
        vstd::arithmetic::div_mod::lemma_fundamental_div_mod(v % 1024, 32);
        lemma_digit_roundtrip(v / 1024);
        lemma_digit_roundtrip((v % 1024) / 32);
        lemma_digit_roundtrip((v % 1024) % 32);
    }
}

/// Shape of every token: at most 3 symbols, all from the alphabet; a value
/// in `[0, 32768)` gets 1 to 3 symbols, anything else the empty token.
pub proof fn lemma_token_wellformed(v: int)
    ensures
        token_of(v).len() <= 3,
        forall|i: int| 0 <= i < token_of(v).len() ==> is_link_char(#[trigger] token_of(v)[i]),
        0 <= v < 32768 ==> 1 <= token_of(v).len() <= 3,
        !(0 <= v < 32768) ==> token_of(v).len() == 0,
{
    if 0 <= v < 32 {
        lemma_digit_roundtrip(v);
    } else if 32 <= v < 1024 {
        vstd::arithmetic::div_mod::lemma_fundamental_div_mod(v, 32);
        lemma_digit_roundtrip(v / 32);
        lemma_digit_roundtrip(v % 32);
    } else if 1024 <= v < 32768 {
        vstd::arithmetic::div_mod::lemma_fundamental_div_mod(v, 1024);
        vstd::arithmetic::div_mod::lemma_fundamental_div_mod(v % 1024, 32);
        lemma_digit_roundtrip(v / 1024);
        lemma_digit_roundtrip((v % 1024) / 32);
        lemma_digit_roundtrip((v % 1024) % 32);
    }
}

/// Rejection of malformed tokens: empty input, more than 3 symbols, or any
/// character outside the alphabet never decodes to a value.
pub proof fn lemma_value_rejects(s: Seq<char>)
    ensures
        s.len() == 0 ==> value_of(s) is None,
        s.len() > 3 ==> value_of(s) is None,
        (exists|i: int| 0 <= i < s.len() && !is_link_char(s[i])) ==> value_of(s) is None,
{
}

/// Encodes a value as its link token: 1 to 3 alphabet symbols for values in
/// `[0, 32768)`, the empty string for anything larger.
pub fn to_base32(i: usize) -> (r: String)
    ensures
        r@ == token_of(i as int),
{
    if i >= RANK_LIMIT {
        String::new()
    } else {
        let x = i / 1024;
        let rem = i % 1024;
        let y = rem / 32;
        let z = rem % 32;
        proof {
            vstd::arithmetic::div_mod::lemma_fundamental_div_mod(i as int, 1024);
            vstd::arithmetic::div_mod::lemma_fundamental_div_mod(rem as int, 32);
        }
        if x == 0 && y == 0 {
            let r = String::from_str(digit_str(z));
            proof {
                assert(r@ =~= token_of(i as int));
            }
            r
        } else if x == 0 {
            let r = String::from_str(digit_str(y)).concat(digit_str(z));
            proof {
                assert(r@ =~= token_of(i as int));
            }
            r
        } else {
            let r = String::from_str(digit_str(x)).concat(digit_str(y)).concat(digit_str(z));
            proof {
                assert(r@ =~= token_of(i as int));
            }
            r
        }
    }
}

/// The digit one character stands for, or `None` outside the alphabet.
fn char_digit(c: char) -> (r: Option<usize>)
    ensures
        match r {
            Some(d) => digit_value(c) == d as int && d < 32,
            None => !is_link_char(c),
        },
{
    match c {
        '0' => Some(0),
        '1' => Some(1),
        '2' => Some(2),
        '3' => Some(3),
        '4' => Some(4),
        '5' => Some(5),
        '6' => Some(6),
        '7' => Some(7),
        '8' => Some(8),
        '9' => Some(9),
        'a' => Some(10),
        'b' => Some(11),
        'c' => Some(12),
        'd' => Some(13),
        'e' => Some(14),
        'f' => Some(15),
        'g' => Some(16),
        'h' => Some(17),
        'j' => Some(18),
        'k' => Some(19),
        'm' => Some(20),
        'n' => Some(21),
        'p' => Some(22),
        'q' => Some(23),
        'r' => Some(24),
        's' => Some(25),
        't' => Some(26),
        'v' => Some(27),
        'w' => Some(28),
        'x' => Some(29),
        'y' => Some(30),
        'z' => Some(31),
        _ => None,
    }
}

/// Decodes a link token back to its value: `Some` exactly for 1 to 3
/// alphabet symbols, `None` for empty, overlong or out-of-alphabet input.
pub fn from_base32(s: &str) -> (r: Option<usize>)
    ensures
        match r {
            Some(v) => value_of(s@) == Some(v as int),
            None => value_of(s@) is None,
        },
{
    let n = s.unicode_len();
    if n == 0 || n > 3 {
        None
    } else if n == 1 {
        match char_digit(s.get_char(0)) {
            Some(d0) => Some(d0),
            None => None,
        }
    } else if n == 2 {
        match (char_digit(s.get_char(0)), char_digit(s.get_char(1))) {
            (Some(d0), Some(d1)) => Some(d0 * 32 + d1),
            _ => None,
        }
    } else {
        match (char_digit(s.get_char(0)), char_digit(s.get_char(1)), char_digit(s.get_char(2))) {
            (Some(d0), Some(d1), Some(d2)) => Some(d0 * 1024 + d1 * 32 + d2),
            _ => None,
        }
    }
}

} // verus!

