//! What holds of every translation.

use crate::alphabet::{
    fold_case, is_alphanumeric, is_whitespace, lemma_symbol, lemma_symbol_ignores_case, symbol_of,
    upper_case,
};
use crate::translate::{
    encode_words, join, lemma_join_push, lemma_translate_empty, lemma_translate_push,
    lemma_words_push, translate, words,
};
use vstd::prelude::*;

verus! {

/// Whether `text` holds nothing but whitespace.
pub open spec fn is_blank(text: Seq<char>) -> bool {
    forall|i: int| 0 <= i < text.len() ==> is_whitespace(#[trigger] text[i])
}

/// `text` with every upper-case ASCII letter in lower case.
pub open spec fn lower_cased(text: Seq<char>) -> Seq<char> {
    text.map_values(|c: char| fold_case(c))
}

/// `text` with every lower-case ASCII letter in upper case.
pub open spec fn upper_cased(text: Seq<char>) -> Seq<char> {
    text.map_values(|c: char| upper_case(c))
}

/// A text has no words, and an empty translation, exactly when it holds
/// nothing but whitespace.
pub proof fn lemma_translate_blank(text: Seq<char>)
    ensures
        words(text).len() == 0 <==> is_blank(text),
        translate(text).len() == 0 <==> is_blank(text),
    decreases text.len(),
{
    if text.len() == 0 {
        lemma_translate_empty();
    } else {
        let init = text.drop_last();
        let c = text.last();
        assert(init.push(c) =~= text);
        lemma_translate_blank(init);
        lemma_translate_push(init, c);
        lemma_symbol(c);
        if is_whitespace(c) {
            if is_blank(init) {
                assert forall|i: int| 0 <= i < text.len() implies is_whitespace(
                    #[trigger] text[i],
                ) by {
                    if i < init.len() {
                        assert(text[i] == init[i]);
                    }
                }
            } else {
                let j = choose|j: int| 0 <= j < init.len() && !is_whitespace(#[trigger] init[j]);
                assert(text[j] == init[j]);
            }
        } else {
            assert(!is_whitespace(text[text.len() - 1]));
        }
    }
}

/// Two texts of one length translate alike where, place by place, their
/// characters are both whitespace or both not and have the same symbol.
pub proof fn lemma_translate_alike(s: Seq<char>, t: Seq<char>)
    requires
        s.len() == t.len(),
        forall|i: int|
            0 <= i < s.len() ==> is_whitespace(#[trigger] s[i]) == is_whitespace(t[i])
                && symbol_of(s[i]) == symbol_of(t[i]),
    ensures
        translate(s) == translate(t),
        words(s).len() == 0 <==> words(t).len() == 0,
    decreases s.len(),
{
    if s.len() == 0 {
        assert(s =~= t);
    } else {
        let n = s.len() - 1;
        assert(s.drop_last().push(s[n]) =~= s);
        assert(t.drop_last().push(t[n]) =~= t);
        assert(is_whitespace(s[n]) == is_whitespace(t[n]));
        if n > 0 {
            assert(s.drop_last()[n - 1] == s[n - 1]);
            assert(t.drop_last()[n - 1] == t[n - 1]);
            assert(is_whitespace(s[n - 1]) == is_whitespace(t[n - 1]));
        }
        assert forall|i: int| 0 <= i < n implies is_whitespace(#[trigger] s.drop_last()[i])
            == is_whitespace(t.drop_last()[i]) && symbol_of(s.drop_last()[i]) == symbol_of(
            t.drop_last()[i],
        ) by {
            assert(s.drop_last()[i] == s[i]);
        }
        lemma_translate_alike(s.drop_last(), t.drop_last());
        lemma_translate_push(s.drop_last(), s[n]);
        lemma_translate_push(t.drop_last(), t[n]);
    }
}

/// The translation does not depend on the case of the letters.
pub proof fn lemma_case_invariance(text: Seq<char>)
    ensures
        translate(upper_cased(text)) == translate(text),
        translate(lower_cased(text)) == translate(text),
{
    assert forall|i: int| 0 <= i < text.len() implies is_whitespace(#[trigger] text[i])
        == is_whitespace(upper_cased(text)[i]) && symbol_of(text[i]) == symbol_of(
        upper_cased(text)[i],
    ) && is_whitespace(text[i]) == is_whitespace(lower_cased(text)[i]) && symbol_of(text[i])
        == symbol_of(lower_cased(text)[i]) by {
        lemma_symbol_ignores_case(text[i]);
    }
    lemma_translate_alike(text, upper_cased(text));
    lemma_translate_alike(text, lower_cased(text));
}

/// A word of one character that is neither a letter nor a digit of ASCII
/// becomes `#`.
pub proof fn lemma_unknown_character(c: char)
    requires
        !is_alphanumeric(c),
        !is_whitespace(c),
    ensures
        translate(seq![c]) == "#"@,
{
    lemma_translate_empty();
    lemma_translate_push(Seq::<char>::empty(), c);
    lemma_symbol(c);
    assert(Seq::<char>::empty().push(c) =~= seq![c]);
}

/// Joining two lists one after the other.
pub proof fn lemma_join_concat(x: Seq<Seq<char>>, y: Seq<Seq<char>>, sep: Seq<char>)
    ensures
        join(x + y, sep) == if x.len() == 0 {
            join(y, sep)
        } else if y.len() == 0 {
            join(x, sep)
        } else {
            join(x, sep) + sep + join(y, sep)
        },
    decreases y.len(),
{
    if y.len() == 0 {
        assert(x + y =~= x);
    } else if x.len() == 0 {
        assert(x + y =~= y);
    } else {
        let init = y.drop_last();
        assert(x + y =~= (x + init).push(y.last()));
        assert(init.push(y.last()) =~= y);
        lemma_join_concat(x, init, sep);
        lemma_join_push(x + init, y.last(), sep);
        lemma_join_push(init, y.last(), sep);
        if init.len() == 0 {
            assert(x + init =~= x);
        } else {
            assert((join(x, sep) + sep + join(init, sep)) + sep + y.last() =~= join(x, sep) + sep
                + (join(init, sep) + sep + y.last()));
        }
    }
}

/// Whitespace at the end of a text adds no word.
pub proof fn lemma_words_trailing_blank(a: Seq<char>, gap: Seq<char>)
    requires
        is_blank(gap),
    ensures
        words(a + gap) == words(a),
    decreases gap.len(),
{
    if gap.len() == 0 {
        assert(a + gap =~= a);
    } else {
        let init = gap.drop_last();
        assert(a + gap =~= (a + init).push(gap.last()));
        assert forall|i: int| 0 <= i < init.len() implies is_whitespace(#[trigger] init[i]) by {
            assert(init[i] == gap[i]);
        }
        lemma_words_trailing_blank(a, init);
        lemma_words_push(a + init, gap.last());
    }
}

/// The words of two texts parted by whitespace are the words of the first,
/// then those of the second.
pub proof fn lemma_words_concat(a: Seq<char>, gap: Seq<char>, b: Seq<char>)
    requires
        gap.len() > 0,
        is_blank(gap),
    ensures
        words(a + gap + b) == words(a) + words(b),
    decreases b.len(),
{
    if b.len() == 0 {
        lemma_translate_empty();
        assert(b =~= Seq::<char>::empty());
        assert(a + gap + b =~= a + gap);
        lemma_words_trailing_blank(a, gap);
        assert(words(a) + words(b) =~= words(a));
    } else {
        let init = b.drop_last();
        let c = b.last();
        let left = a + gap + init;
        assert(a + gap + b =~= left.push(c));
        assert(init.push(c) =~= b);
        lemma_words_concat(a, gap, init);
        lemma_words_push(left, c);
        lemma_words_push(init, c);
        if init.len() == 0 {
            assert(left.last() == gap.last());
        } else {
            assert(left.last() == init.last());
        }
        if is_whitespace(c) {
        } else if init.len() > 0 && !is_whitespace(init.last()) {
            assert(words(left.push(c)) =~= words(a) + words(b));
        } else {
            assert(words(left.push(c)) =~= words(a) + words(b));
        }
    }
}

/// The translation of two texts parted by whitespace: the translations of
/// both with `" / "` between them, or that of the one that has words where
/// the other has none.
pub proof fn lemma_translate_concat(a: Seq<char>, gap: Seq<char>, b: Seq<char>)
    requires
        gap.len() > 0,
        is_blank(gap),
    ensures
        translate(a + gap + b) == if is_blank(a) {
            translate(b)
        } else if is_blank(b) {
            translate(a)
        } else {
            translate(a) + " / "@ + translate(b)
        },
{
    lemma_words_concat(a, gap, b);
    lemma_translate_blank(a);
    lemma_translate_blank(b);
    assert(encode_words(words(a) + words(b)) =~= encode_words(words(a)) + encode_words(words(b)));
    lemma_join_concat(encode_words(words(a)), encode_words(words(b)), " / "@);
}

/// Two texts that both hold a word, parted by whitespace, translate to
/// their translations with `" / "` between them.
pub proof fn lemma_word_separator(a: Seq<char>, gap: Seq<char>, b: Seq<char>)
    requires
        gap.len() > 0,
        is_blank(gap),
        !is_blank(a),
        !is_blank(b),
    ensures
        translate(a + gap + b) == translate(a) + " / "@ + translate(b),
{
    lemma_translate_concat(a, gap, b);
}

/// A run of whitespace counts as much as any other: its length and its
/// characters do not matter.
pub proof fn lemma_whitespace_collapses(
    a: Seq<char>,
    gap: Seq<char>,
    other_gap: Seq<char>,
    b: Seq<char>,
)
    requires
        gap.len() > 0,
        is_blank(gap),
        other_gap.len() > 0,
        is_blank(other_gap),
    ensures
        translate(a + gap + b) == translate(a + other_gap + b),
{
    lemma_translate_concat(a, gap, b);
    lemma_translate_concat(a, other_gap, b);
}

/// Whitespace before and after a text does not change its translation.
pub proof fn lemma_translate_trims(before: Seq<char>, text: Seq<char>, after: Seq<char>)
    requires
        is_blank(before),
        is_blank(after),
    ensures
        translate(before + text + after) == translate(text),
{
    let e = Seq::<char>::empty();
    lemma_translate_empty();
    assert(is_blank(e));
    lemma_words_trailing_blank(before + text, after);
    if before.len() == 0 {
        assert(before + text =~= text);
    } else {
        assert(e + before + text =~= before + text);
        lemma_words_concat(e, before, text);
        assert(words(e) + words(text) =~= words(text));
    }
}

} // verus!
