use morse::ascii_to_morse;

#[test]
fn ascii_to_morse_single_letter() {
    assert_eq!(ascii_to_morse("A"), ".-");
    assert_eq!(ascii_to_morse("Z"), "--..");
}

#[test]
fn ascii_to_morse_single_word() {
    assert_eq!(ascii_to_morse("SOS"), "... --- ...");
    assert_eq!(ascii_to_morse("HELLO"), ".... . .-.. .-.. ---");
}

#[test]
fn ascii_to_morse_multiple_words() {
    assert_eq!(
        ascii_to_morse("HELLO WORLD"),
        ".... . .-.. .-.. --- / .-- --- .-. .-.. -.."
    );
}

#[test]
fn ascii_to_morse_invalid_chars() {
    assert_eq!(ascii_to_morse("HI!"), ".... .. #");
    assert_eq!(ascii_to_morse("$12@3%"), "# .---- ..--- # ...-- #");
}

#[test]
fn ascii_to_morse_mixed_case() {
    assert_eq!(ascii_to_morse("Hello"), ".... . .-.. .-.. ---");
    assert_eq!(ascii_to_morse("hELLo"), ".... . .-.. .-.. ---");
}

#[test]
fn ascii_to_morse_extra_spaces() {
    assert_eq!(
        ascii_to_morse("SOS  HELP"),
        "... --- ... / .... . .-.. .--."
    );
    assert_eq!(ascii_to_morse("  HI  THERE  "), ".... .. / - .... . .-. .");
}

#[test]
fn ascii_to_morse_empty_string() {
    assert_eq!(ascii_to_morse(""), "");
}

#[test]
fn ascii_to_morse_all_invalid() {
    assert_eq!(ascii_to_morse("!@#$%"), "# # # # #");
}

#[test]
fn whitespace_only_gives_nothing() {
    assert_eq!(ascii_to_morse("   "), "");
    assert_eq!(ascii_to_morse(" \t\r\n"), "");
    assert_eq!(ascii_to_morse("\u{a0}\u{3000}\u{2003}\u{85}"), "");
}

#[test]
fn every_kind_of_whitespace_parts_words() {
    assert_eq!(ascii_to_morse("e\tt"), ". / -");
    assert_eq!(ascii_to_morse("e\nt"), ". / -");
    assert_eq!(ascii_to_morse("e\r\nt"), ". / -");
    assert_eq!(ascii_to_morse("e\u{b}t"), ". / -");
    assert_eq!(ascii_to_morse("e\u{c}t"), ". / -");
    assert_eq!(ascii_to_morse("e\u{85}t"), ". / -");
    assert_eq!(ascii_to_morse("e\u{a0}t"), ". / -");
    assert_eq!(ascii_to_morse("e\u{1680}t"), ". / -");
    assert_eq!(ascii_to_morse("e\u{2000}t"), ". / -");
    assert_eq!(ascii_to_morse("e\u{200a}t"), ". / -");
    assert_eq!(ascii_to_morse("e\u{2028}\u{2029}t"), ". / -");
    assert_eq!(ascii_to_morse("e\u{202f}t"), ". / -");
    assert_eq!(ascii_to_morse("e\u{205f}t"), ". / -");
    assert_eq!(ascii_to_morse("e\u{3000}t"), ". / -");
}

#[test]
fn what_only_looks_like_whitespace_is_a_character() {
    assert_eq!(ascii_to_morse("e\u{200b}t"), ". # -");
    assert_eq!(ascii_to_morse("e\u{180e}t"), ". # -");
    assert_eq!(ascii_to_morse("e\u{feff}t"), ". # -");
    assert_eq!(ascii_to_morse("e\u{1c}t"), ". # -");
    assert_eq!(ascii_to_morse("e\u{8}t"), ". # -");
    assert_eq!(ascii_to_morse("e\u{e}t"), ". # -");
    assert_eq!(ascii_to_morse("e\0t"), ". # -");
}

#[test]
fn the_whole_table() {
    assert_eq!(
        ascii_to_morse("abcdefghijklm"),
        ".- -... -.-. -.. . ..-. --. .... .. .--- -.- .-.. --"
    );
    assert_eq!(
        ascii_to_morse("nopqrstuvwxyz"),
        "-. --- .--. --.- .-. ... - ..- ...- .-- -..- -.-- --.."
    );
    assert_eq!(
        ascii_to_morse("0123456789"),
        "----- .---- ..--- ...-- ....- ..... -.... --... ---.. ----."
    );
    assert_eq!(
        ascii_to_morse("ABCDEFGHIJKLMNOPQRSTUVWXYZ"),
        ascii_to_morse("abcdefghijklmnopqrstuvwxyz")
    );
}

#[test]
fn neighbours_of_the_letters_and_digits_have_no_code() {
    assert_eq!(ascii_to_morse("/"), "#");
    assert_eq!(ascii_to_morse(":"), "#");
    assert_eq!(ascii_to_morse("@"), "#");
    assert_eq!(ascii_to_morse("["), "#");
    assert_eq!(ascii_to_morse("`"), "#");
    assert_eq!(ascii_to_morse("{"), "#");
    assert_eq!(ascii_to_morse(".-"), "# #");
}

#[test]
fn letters_outside_ascii_have_no_code() {
    assert_eq!(ascii_to_morse("é"), "#");
    assert_eq!(ascii_to_morse("ß"), "#");
    assert_eq!(ascii_to_morse("\u{131}"), "#");
    assert_eq!(ascii_to_morse("\u{212a}"), "#");
    assert_eq!(ascii_to_morse("\u{ff21}"), "#");
    assert_eq!(ascii_to_morse("\u{661}"), "#");
    assert_eq!(ascii_to_morse("日本 語"), "# # / #");
    assert_eq!(ascii_to_morse("\u{10ffff}a\u{d7ff}"), "# .- #");
}

#[test]
fn case_does_not_matter() {
    let text = "The Quick brown FOX 42";
    assert_eq!(ascii_to_morse(text), ascii_to_morse(&text.to_ascii_uppercase()));
    assert_eq!(ascii_to_morse(text), ascii_to_morse(&text.to_ascii_lowercase()));
    assert_eq!(
        ascii_to_morse(text),
        "- .... . / --.- ..- .. -.-. -.- / -... .-. --- .-- -. / ..-. --- -..- / ....- ..---"
    );
}

#[test]
fn words_are_parted_by_a_slash() {
    let whole = ascii_to_morse("HI THERE");
    let parts = format!("{} / {}", ascii_to_morse("HI"), ascii_to_morse("THERE"));
    assert_eq!(whole, parts);
    assert_eq!(whole, ".... .. / - .... . .-. .");
}

#[test]
fn runs_of_whitespace_count_once() {
    assert_eq!(ascii_to_morse("SOS  HELP"), ascii_to_morse("SOS HELP"));
    assert_eq!(ascii_to_morse("SOS \t\n HELP"), ascii_to_morse("SOS HELP"));
    assert_eq!(ascii_to_morse("\n SOS HELP \n"), ascii_to_morse("SOS HELP"));
}

#[test]
fn a_translation_holds_only_code_characters() {
    let texts = [
        "",
        "  ",
        "Hello, World!",
        "a.b-c/d#e",
        "tab\tand\nnewline",
        "\u{1f600} smile",
        "1 2 3",
    ];
    for text in texts {
        for c in ascii_to_morse(text).chars() {
            assert!(matches!(c, '.' | '-' | ' ' | '/' | '#'));
        }
    }
}

#[test]
fn a_translation_neither_starts_nor_ends_with_a_gap() {
    for text in ["a", " a", "a ", " a b ", "! ?", "\ta\tb\t"] {
        let morse = ascii_to_morse(text);
        assert!(!morse.starts_with(' '));
        assert!(!morse.ends_with(' '));
        assert!(!morse.contains("  "));
    }
}

#[test]
fn the_translation_is_that_of_split_and_join() {
    let texts = [
        "",
        " ",
        "e",
        "SOS",
        "  many   words in\ta row\n",
        "Mixed CASE and 0123456789",
        "sym!bols? (here)",
        "\u{a0}no\u{2003}break\u{3000}",
        "zero\u{200b}width",
    ];
    for text in texts {
        let mut words: Vec<String> = Vec::new();
        for word in text.split_whitespace() {
            let mut codes: Vec<String> = Vec::new();
            for c in word.chars() {
                codes.push(ascii_to_morse(&c.to_string()));
            }
            words.push(codes.join(" "));
        }
        assert_eq!(ascii_to_morse(text), words.join(" / "));
    }
}
