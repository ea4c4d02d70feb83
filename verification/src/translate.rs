//! Text to Morse code.

use crate::alphabet::{
    is_code_char, is_separator, is_whitespace, lemma_symbol, symbol, symbol_of,
};
use vstd::prelude::*;
use vstd::string::StringExecFns;

verus! {

/// The number of characters of `s` that stand before its first whitespace.
pub open spec fn word_len(s: Seq<char>) -> nat
    decreases s.len(),
{
    if s.len() == 0 || is_whitespace(s[0]) {
        0
    } else {
        1 + word_len(s.drop_first())
    }
}

/// The words of `s`: its longest runs of characters without whitespace, in
/// the order in which they stand.
pub open spec fn words(s: Seq<char>) -> Seq<Seq<char>>
    decreases s.len(),
{
    if s.len() == 0 {
        Seq::empty()
    } else if is_whitespace(s[0]) {
        words(s.drop_first())
    } else {
        proof {
            lemma_word_len(s);
        }
        let n = word_len(s) as int;
        seq![s.take(n)] + words(s.skip(n))
    }
}

/// `parts` written one after the other, with `sep` between each two.
pub open spec fn join(parts: Seq<Seq<char>>, sep: Seq<char>) -> Seq<char>
    decreases parts.len(),
{
    if parts.len() == 0 {
        Seq::empty()
    } else if parts.len() == 1 {
        parts[0]
    } else {
        join(parts.drop_last(), sep) + sep + parts.last()
    }
}

/// The symbols of the characters of `word`, one for each.
pub open spec fn symbols_of(word: Seq<char>) -> Seq<Seq<char>> {
    word.map_values(|c: char| symbol_of(c))
}

/// The code of one word: the symbols of its characters, a space between
/// each two.
pub open spec fn encode_word(word: Seq<char>) -> Seq<char> {
    join(symbols_of(word), " "@)
}

/// The codes of `list`, one for each word.
pub open spec fn encode_words(list: Seq<Seq<char>>) -> Seq<Seq<char>> {
    list.map_values(|w: Seq<char>| encode_word(w))
}

/// The Morse code of `text`: the codes of its words, `" / "` between each
/// two.
pub open spec fn translate(text: Seq<char>) -> Seq<char> {
    join(encode_words(words(text)), " / "@)
}

/// `word_len(s)` is the place of the first whitespace of `s`, or the length
/// of `s` where it has none.
pub proof fn lemma_word_len(s: Seq<char>)
    ensures
        word_len(s) <= s.len(),
        s.len() > 0 && !is_whitespace(s[0]) ==> word_len(s) >= 1,
        forall|i: int| 0 <= i < word_len(s) ==> !is_whitespace(#[trigger] s[i]),
        word_len(s) < s.len() ==> is_whitespace(s[word_len(s) as int]),
    decreases s.len(),
{
    if s.len() == 0 || is_whitespace(s[0]) {
    } else {
        let t = s.drop_first();
        lemma_word_len(t);
        assert forall|i: int| 0 <= i < word_len(s) implies !is_whitespace(#[trigger] s[i]) by {
            if i > 0 {
                assert(s[i] == t[i - 1]);
            }
        }
        if word_len(s) < s.len() {
            assert(s[word_len(s) as int] == t[word_len(t) as int]);
        }
    }
}

/// How `word_len` changes when one character is added at the end.
proof fn lemma_word_len_push(s: Seq<char>, c: char)
    ensures
        word_len(s.push(c)) == if word_len(s) < s.len() || is_whitespace(c) {
            word_len(s)
        } else {
            s.len() + 1
        },
    decreases s.len(),
{
    let t = s.push(c);
    if s.len() == 0 {
        assert(t.drop_first() =~= Seq::<char>::empty());
        assert(word_len(t.drop_first()) == 0);
    } else if is_whitespace(s[0]) {
        assert(t[0] == s[0]);
    } else {
        assert(t[0] == s[0]);
        assert(t.drop_first() =~= s.drop_first().push(c));
        lemma_word_len_push(s.drop_first(), c);
        lemma_word_len(s.drop_first());
    }
}

/// How the words change when one character is added at the end: whitespace
/// changes nothing, another character lengthens the last word where the text
/// ends inside one, and starts a new word where it does not.
pub proof fn lemma_words_push(s: Seq<char>, c: char)
    ensures
        is_whitespace(c) ==> words(s.push(c)) == words(s),
        !is_whitespace(c) && s.len() > 0 && !is_whitespace(s.last()) ==> words(s).len() > 0
            && words(s.push(c)) == words(s).drop_last().push(words(s).last().push(c)),
        !is_whitespace(c) && (s.len() == 0 || is_whitespace(s.last())) ==> words(s.push(c))
            == words(s).push(seq![c]),
    decreases s.len(),
{
    let t = s.push(c);
    assert(words(Seq::<char>::empty()) =~= Seq::<Seq<char>>::empty());
    if s.len() == 0 {
        assert(t.drop_first() =~= Seq::<char>::empty());
        if !is_whitespace(c) {
            lemma_word_len_push(s, c);
            assert(t.take(1) =~= seq![c]);
            assert(t.skip(1) =~= Seq::<char>::empty());
            assert(words(t) =~= words(s).push(seq![c]));
        }
    } else if is_whitespace(s[0]) {
        assert(t[0] == s[0]);
        assert(t.drop_first() =~= s.drop_first().push(c));
        lemma_words_push(s.drop_first(), c);
    } else {
        assert(t[0] == s[0]);
        let n = word_len(s) as int;
        lemma_word_len(s);
        lemma_word_len_push(s, c);
        if n == s.len() {
            assert(s.take(n) =~= s);
            assert(s.skip(n) =~= Seq::<char>::empty());
            assert(words(s) =~= seq![s]);
            if is_whitespace(c) {
                assert(t.take(n) =~= s);
                assert(t.skip(n) =~= seq![c]);
                assert(seq![c].drop_first() =~= Seq::<char>::empty());
                assert(words(seq![c]) =~= Seq::<Seq<char>>::empty());
                assert(words(t) =~= words(s));
            } else {
                assert(t.take(n + 1) =~= t);
                assert(t.skip(n + 1) =~= Seq::<char>::empty());
                assert(words(t) =~= seq![t]);
                assert(words(t) =~= words(s).drop_last().push(words(s).last().push(c)));
            }
        } else {
            let rest = s.skip(n);
            assert(t.take(n) =~= s.take(n));
            assert(t.skip(n) =~= rest.push(c));
            assert(rest.last() == s.last());
            lemma_words_push(rest, c);
            if is_whitespace(c) {
            } else if !is_whitespace(s.last()) {
                assert(words(t) =~= words(s).drop_last().push(words(s).last().push(c)));
            } else {
                assert(words(t) =~= words(s).push(seq![c]));
            }
        }
    }
}

/// No word is empty.
pub proof fn lemma_words_nonempty(s: Seq<char>)
    ensures
        forall|i: int| 0 <= i < words(s).len() ==> (#[trigger] words(s)[i]).len() > 0,
    decreases s.len(),
{
    if s.len() == 0 {
    } else if is_whitespace(s[0]) {
        lemma_words_nonempty(s.drop_first());
        assert(words(s) == words(s.drop_first()));
    } else {
        lemma_word_len(s);
        let rest = words(s.skip(word_len(s) as int));
        lemma_words_nonempty(s.skip(word_len(s) as int));
        assert forall|i: int| 0 <= i < words(s).len() implies (#[trigger] words(s)[i]).len()
            > 0 by {
            if i > 0 {
                assert(words(s)[i] == rest[i - 1]);
            }
        }
    }
}

/// Joining one more part: the separator comes before it unless it is the
/// first.
pub proof fn lemma_join_push(parts: Seq<Seq<char>>, last: Seq<char>, sep: Seq<char>)
    ensures
        join(parts.push(last), sep) == if parts.len() == 0 {
            last
        } else {
            join(parts, sep) + sep + last
        },
{
    assert(parts.push(last).drop_last() =~= parts);
}

/// The code of a word that is one character longer.
pub proof fn lemma_encode_word_push(word: Seq<char>, c: char)
    ensures
        encode_word(word.push(c)) == if word.len() == 0 {
            symbol_of(c)
        } else {
            encode_word(word) + " "@ + symbol_of(c)
        },
{
    assert(symbols_of(word.push(c)) =~= symbols_of(word).push(symbol_of(c)));
    lemma_join_push(symbols_of(word), symbol_of(c), " "@);
}

/// How the Morse code changes when one character is added at the end of the
/// text.
pub proof fn lemma_translate_push(s: Seq<char>, c: char)
    ensures
        translate(s.push(c)) == if is_whitespace(c) {
            translate(s)
        } else if s.len() > 0 && !is_whitespace(s.last()) {
            translate(s) + " "@ + symbol_of(c)
        } else if words(s).len() == 0 {
            symbol_of(c)
        } else {
            translate(s) + " / "@ + symbol_of(c)
        },
        words(s.push(c)).len() == 0 <==> is_whitespace(c) && words(s).len() == 0,
{
    lemma_words_push(s, c);
    let w = words(s);
    let m = encode_words(w);
    let sep = " / "@;
    if is_whitespace(c) {
    } else if s.len() > 0 && !is_whitespace(s.last()) {
        lemma_words_nonempty(s);
        let longer = w.last().push(c);
        lemma_encode_word_push(w.last(), c);
        assert(encode_words(w.drop_last().push(longer)) =~= m.drop_last().push(
            encode_word(longer),
        ));
        lemma_join_push(m.drop_last(), encode_word(longer), sep);
        if m.len() > 1 {
            assert(join(m.drop_last(), sep) + sep + (m.last() + " "@ + symbol_of(c)) =~= (join(
                m.drop_last(),
                sep,
            ) + sep + m.last()) + " "@ + symbol_of(c));
        }
    } else {
        lemma_encode_word_push(Seq::<char>::empty(), c);
        assert(Seq::<char>::empty().push(c) =~= seq![c]);
        assert(encode_words(w.push(seq![c])) =~= m.push(encode_word(seq![c])));
        lemma_join_push(m, symbol_of(c), sep);
    }
}

/// The empty text has no words and an empty translation.
pub proof fn lemma_translate_empty()
    ensures
        words(Seq::<char>::empty()) == Seq::<Seq<char>>::empty(),
        translate(Seq::<char>::empty()) == Seq::<char>::empty(),
{
    assert(words(Seq::<char>::empty()) =~= Seq::<Seq<char>>::empty());
    assert(encode_words(Seq::<Seq<char>>::empty()) =~= Seq::<Seq<char>>::empty());
}

/// A translation holds only dots, dashes, spaces, slashes and `#`.
pub proof fn lemma_translate_alphabet(text: Seq<char>)
    ensures
        forall|i: int|
            0 <= i < translate(text).len() ==> is_code_char(#[trigger] translate(text)[i]),
    decreases text.len(),
{
    if text.len() == 0 {
        lemma_translate_empty();
    } else {
        let init = text.drop_last();
        let c = text.last();
        assert(init.push(c) =~= text);
        lemma_translate_alphabet(init);
        lemma_translate_push(init, c);
        lemma_symbol(c);
        reveal_strlit(" ");
        reveal_strlit(" / ");
    }
}

/// Converts text to International Morse Code.
///
/// The text is read as words parted by whitespace. Each character of a word
/// becomes its code, whatever its case, or `#` where it is neither a letter
/// nor a digit of ASCII. The codes of a word are parted by one space, the
/// words by `" / "`.
pub fn ascii_to_morse(ascii: &str) -> (morse: String)
    ensures
        morse@ == translate(ascii@),
        forall|i: int| 0 <= i < morse@.len() ==> is_code_char(#[trigger] morse@[i]),
{
    let mut morse = String::new();
    let mut in_word = false;
    let mut started = false;
    proof {
        assert(ascii@.take(0) =~= Seq::<char>::empty());
        lemma_translate_empty();
    }
    for c in it: ascii.chars()
        invariant
            it.seq() == ascii@,
            morse@ == translate(ascii@.take(it.index())),
            in_word == (it.index() > 0 && !is_whitespace(ascii@[it.index() - 1])),
            started == (words(ascii@.take(it.index())).len() > 0),
    {
        proof {
            let i = it.index();
            lemma_translate_push(ascii@.take(i), c);
            assert(ascii@.take(i).push(c) =~= ascii@.take(i + 1));
        }
        if !is_separator(c) {
            if in_word {
                morse.append(" ");
            } else if started {
                morse.append(" / ");
            }
            morse.append(symbol(c));
            in_word = true;
            started = true;
        } else {
            in_word = false;
        }
    }
    proof {
        assert(ascii@.take(ascii@.len() as int) =~= ascii@);
        lemma_translate_alphabet(ascii@);
    }
    morse
}

} // verus!
