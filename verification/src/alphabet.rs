//! The symbol table: which characters part words, and the code of each
//! letter and digit.

use vstd::prelude::*;

verus! {

/// Whether `c` has the Unicode property `White_Space`.
pub open spec fn is_whitespace(c: char) -> bool {
    let n = c as u32;
    ||| 0x09 <= n <= 0x0D
    ||| n == 0x20
    ||| n == 0x85
    ||| n == 0xA0
    ||| n == 0x1680
    ||| 0x2000 <= n <= 0x200A
    ||| n == 0x2028
    ||| n == 0x2029
    ||| n == 0x202F
    ||| n == 0x205F
    ||| n == 0x3000
}

/// The character under which `c` is looked up: an upper-case ASCII letter
/// stands for its lower-case form, every other character for itself.
pub open spec fn fold_case(c: char) -> char {
    if 'A' <= c <= 'Z' {
        ((c as u32) + 32) as char
    } else {
        c
    }
}

/// The upper-case form of `c`: a lower-case ASCII letter changes, every
/// other character stays.
pub open spec fn upper_case(c: char) -> char {
    if 'a' <= c <= 'z' {
        ((c as u32) - 32) as char
    } else {
        c
    }
}

/// The symbol table: the code of each lower-case letter and digit.
pub open spec fn table(c: char) -> Option<Seq<char>> {
    match c {
        'a' => Some(".-"@),
        'b' => Some("-..."@),
        'c' => Some("-.-."@),
        'd' => Some("-.."@),
        'e' => Some("."@),
        'f' => Some("..-."@),
        'g' => Some("--."@),
        'h' => Some("...."@),
        'i' => Some(".."@),
        'j' => Some(".---"@),
        'k' => Some("-.-"@),
        'l' => Some(".-.."@),
        'm' => Some("--"@),
        'n' => Some("-."@),
        'o' => Some("---"@),
        'p' => Some(".--."@),
        'q' => Some("--.-"@),
        'r' => Some(".-."@),
        's' => Some("..."@),
        't' => Some("-"@),
        'u' => Some("..-"@),
        'v' => Some("...-"@),
        'w' => Some(".--"@),
        'x' => Some("-..-"@),
        'y' => Some("-.--"@),
        'z' => Some("--.."@),
        '0' => Some("-----"@),
        '1' => Some(".----"@),
        '2' => Some("..---"@),
        '3' => Some("...--"@),
        '4' => Some("....-"@),
        '5' => Some("....."@),
        '6' => Some("-...."@),
        '7' => Some("--..."@),
        '8' => Some("---.."@),
        '9' => Some("----."@),
        _ => None,
    }
}

/// What one character of a word becomes: its code, or `#` where the table
/// has none.
pub open spec fn symbol_of(c: char) -> Seq<char> {
    match table(fold_case(c)) {
        Some(code) => code,
        None => "#"@,
    }
}

/// Whether `c` is a letter or a digit of ASCII: the characters that have a
/// code.
pub open spec fn is_alphanumeric(c: char) -> bool {
    'a' <= c <= 'z' || 'A' <= c <= 'Z' || '0' <= c <= '9'
}

/// Whether `c` is a dot or a dash.
pub open spec fn is_mark(c: char) -> bool {
    c == '.' || c == '-'
}

/// Whether `c` can stand in a Morse string: a dot, a dash, a space, the
/// slash that parts words, or the `#` that stands for a character without a
/// code.
pub open spec fn is_code_char(c: char) -> bool {
    is_mark(c) || c == ' ' || c == '/' || c == '#'
}

/// The table holds the letters and digits and nothing else, and each code
/// is made of one to five dots and dashes.
pub proof fn lemma_table(c: char)
    ensures
        table(c) is Some <==> ('a' <= c <= 'z' || '0' <= c <= '9'),
        table(c) matches Some(code) ==> 1 <= code.len() <= 5 && forall|i: int|
            0 <= i < code.len() ==> is_mark(#[trigger] code[i]),
{
    reveal_strlit(".-");
    reveal_strlit("-...");
    reveal_strlit("-.-.");
    reveal_strlit("-..");
    reveal_strlit(".");
    reveal_strlit("..-.");
    reveal_strlit("--.");
    reveal_strlit("....");
    reveal_strlit("..");
    reveal_strlit(".---");
    reveal_strlit("-.-");
    reveal_strlit(".-..");
    reveal_strlit("--");
    reveal_strlit("-.");
    reveal_strlit("---");
    reveal_strlit(".--.");
    reveal_strlit("--.-");
    reveal_strlit(".-.");
    reveal_strlit("...");
    reveal_strlit("-");
    reveal_strlit("..-");
    reveal_strlit("...-");
    reveal_strlit(".--");
    reveal_strlit("-..-");
    reveal_strlit("-.--");
    reveal_strlit("--..");
    reveal_strlit("-----");
    reveal_strlit(".----");
    reveal_strlit("..---");
    reveal_strlit("...--");
    reveal_strlit("....-");
    reveal_strlit(".....");
    reveal_strlit("-....");
    reveal_strlit("--...");
    reveal_strlit("---..");
    reveal_strlit("----.");
}

/// A letter or digit becomes dots and dashes, and any other character
/// becomes `#`: no symbol is empty.
pub proof fn lemma_symbol(c: char)
    ensures
        is_alphanumeric(c) ==> 1 <= symbol_of(c).len() <= 5 && forall|i: int|
            0 <= i < symbol_of(c).len() ==> is_mark(#[trigger] symbol_of(c)[i]),
        !is_alphanumeric(c) ==> symbol_of(c) == "#"@,
        symbol_of(c).len() > 0,
        forall|i: int| 0 <= i < symbol_of(c).len() ==> is_code_char(#[trigger] symbol_of(c)[i]),
{
    lemma_table(fold_case(c));
    reveal_strlit("#");
}

/// Changing the case of a character changes neither its symbol nor
/// whether it is whitespace.
pub proof fn lemma_symbol_ignores_case(c: char)
    ensures
        symbol_of(fold_case(c)) == symbol_of(c),
        symbol_of(upper_case(c)) == symbol_of(c),
        is_whitespace(fold_case(c)) == is_whitespace(c),
        is_whitespace(upper_case(c)) == is_whitespace(c),
{
}

/// Tells whether `c` separates words.
pub fn is_separator(c: char) -> (b: bool)
    ensures
        b == is_whitespace(c),
{
    let n: u32 = c as u32;
    (0x09 <= n && n <= 0x0D) || n == 0x20 || n == 0x85 || n == 0xA0 || n == 0x1680 || (0x2000 <= n
        && n <= 0x200A) || n == 0x2028 || n == 0x2029 || n == 0x202F || n == 0x205F || n == 0x3000
}

/// The code of `c`, or `#`.
pub fn symbol(c: char) -> (s: &'static str)
    ensures
        s@ == symbol_of(c),
{
    match c {
        'a' | 'A' => ".-",
        'b' | 'B' => "-...",
        'c' | 'C' => "-.-.",
        'd' | 'D' => "-..",
        'e' | 'E' => ".",
        'f' | 'F' => "..-.",
        'g' | 'G' => "--.",
        'h' | 'H' => "....",
        'i' | 'I' => "..",
        'j' | 'J' => ".---",
        'k' | 'K' => "-.-",
        'l' | 'L' => ".-..",
        'm' | 'M' => "--",
        'n' | 'N' => "-.",
        'o' | 'O' => "---",
        'p' | 'P' => ".--.",
        'q' | 'Q' => "--.-",
        'r' | 'R' => ".-.",
        's' | 'S' => "...",
        't' | 'T' => "-",
        'u' | 'U' => "..-",
        'v' | 'V' => "...-",
        'w' | 'W' => ".--",
        'x' | 'X' => "-..-",
        'y' | 'Y' => "-.--",
        'z' | 'Z' => "--..",
        '0' => "-----",
        '1' => ".----",
        '2' => "..---",
        '3' => "...--",
        '4' => "....-",
        '5' => ".....",
        '6' => "-....",
        '7' => "--...",
        '8' => "---..",
        '9' => "----.",
        _ => "#",
    }
}

} // verus!
