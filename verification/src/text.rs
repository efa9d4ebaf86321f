//! Small questions about text, asked character by character.

use vstd::prelude::*;
use vstd::std_specs::iter::IteratorSpec;
use vstd::string::StringExecFns;

verus! {

/// `String::push` puts one character at the end of a string.
pub assume_specification[ String::push ](text: &mut String, c: char)
    ensures
        final(text)@ == old(text)@.push(c),
;

/// Does `text` begin with `prefix`?
pub fn starts_with(text: &str, prefix: &str) -> (yes: bool)
    ensures
        yes == prefix@.is_prefix_of(text@),
{
    let mut rest = text.chars();
    let mut want = prefix.chars();
    let ghost mut at: int = 0;
    loop
        invariant
            0 <= at <= prefix@.len(),
            at <= text@.len(),
            want.remaining() == prefix@.skip(at),
            rest.remaining() == text@.skip(at),
            prefix@.take(at) == text@.take(at),
        decreases prefix@.len() - at,
    {
        match want.next() {
            None => {
                return true;
            },
            Some(p) => {
                match rest.next() {
                    None => {
                        return false;
                    },
                    Some(t) => {
                        if p != t {
                            return false;
                        }
                        proof {
                            at = at + 1;
                        }
                    },
                }
            },
        }
    }
}

/// The characters that separate words: those with Unicode's White_Space
/// property.
pub open spec fn is_space(c: char) -> bool {
    let code = c as u32;
    ||| 0x09 <= code <= 0x0D
    ||| code == 0x20
    ||| code == 0x85
    ||| code == 0xA0
    ||| code == 0x1680
    ||| 0x2000 <= code <= 0x200A
    ||| code == 0x2028
    ||| code == 0x2029
    ||| code == 0x202F
    ||| code == 0x205F
    ||| code == 0x3000
}

/// Tells whether a character separates words.
pub fn separates_words(c: char) -> (yes: bool)
    ensures
        yes == is_space(c),
{
    let code: u32 = c as u32;
    (0x09 <= code && code <= 0x0D) || code == 0x20 || code == 0x85 || code == 0xA0 || code == 0x1680
        || (0x2000 <= code && code <= 0x200A) || code == 0x2028 || code == 0x2029 || code == 0x202F
        || code == 0x205F || code == 0x3000
}

/// The words of a text with one space between each two of them: white space
/// at either end goes, and every run of it between two words becomes a
/// single space.
pub open spec fn collapsed(text: Seq<char>) -> Seq<char>
    decreases text.len(),
{
    if text.len() == 0 {
        Seq::empty()
    } else {
        let before = collapsed(text.drop_last());
        let c = text.last();
        if is_space(c) {
            before
        } else if before.len() > 0 && is_space(text[text.len() - 2]) {
            before.push(' ').push(c)
        } else {
            before.push(c)
        }
    }
}

/// The characters of a text that are not white space, in their order.
pub open spec fn ink(text: Seq<char>) -> Seq<char> {
    text.filter(|c: char| !is_space(c))
}

/// In a collapsed text, white space is a plain space between two characters
/// that are not white space: none opens or closes the text, and no two
/// stand side by side.
pub proof fn lemma_collapsed_is_tidy(text: Seq<char>)
    ensures
        forall|i: int|
            0 <= i < collapsed(text).len() && is_space(#[trigger] collapsed(text)[i]) ==> {
                &&& collapsed(text)[i] == ' '
                &&& 0 < i < collapsed(text).len() - 1
                &&& !is_space(collapsed(text)[i - 1])
                &&& !is_space(collapsed(text)[i + 1])
            },
    decreases text.len(),
{
    if text.len() > 0 {
        lemma_collapsed_is_tidy(text.drop_last());
        let before = collapsed(text.drop_last());
        let tidy = collapsed(text);
        assert(before.len() > 0 ==> !is_space(before.last()));
        assert forall|i: int| 0 <= i < tidy.len() && is_space(#[trigger] tidy[i]) implies {
            &&& tidy[i] == ' '
            &&& 0 < i < tidy.len() - 1
            &&& !is_space(tidy[i - 1])
            &&& !is_space(tidy[i + 1])
        } by {
            if i < before.len() {
                assert(tidy[i] == before[i]);
            }
        }
    }
}

/// Collapsing a text changes its white space only: the other characters
/// stay, in their order.
pub proof fn lemma_collapsed_keeps_ink(text: Seq<char>)
    ensures
        ink(collapsed(text)) == ink(text),
    decreases text.len(),
{
    reveal(Seq::filter);
    if text.len() > 0 {
        lemma_collapsed_keeps_ink(text.drop_last());
        let before = collapsed(text.drop_last());
        let c = text.last();
        if is_space(c) {
        } else if before.len() > 0 && is_space(text[text.len() - 2]) {
            let spaced = before.push(' ');
            assert(spaced.drop_last() == before);
            assert(spaced.push(c).drop_last() == spaced);
            assert(ink(spaced) == ink(before));
        } else {
            assert(before.push(c).drop_last() == before);
        }
    }
}

/// A text collapses to nothing exactly if it is white space throughout.
pub proof fn lemma_collapsed_empty(text: Seq<char>)
    ensures
        collapsed(text).len() == 0 <==> forall|i: int|
            0 <= i < text.len() ==> is_space(#[trigger] text[i]),
    decreases text.len(),
{
    if text.len() > 0 {
        let front = text.drop_last();
        lemma_collapsed_empty(front);
        assert forall|i: int| 0 <= i < front.len() implies front[i] == text[i] by {}
    }
}

/// Brings a text to single spaces between its words.
pub fn collapse_whitespace(text: &str) -> (tidy: String)
    ensures
        tidy@ == collapsed(text@),
{
    let mut tidy = String::new();
    let mut gap = false;
    let mut started = false;
    let mut rest = text.chars();
    let ghost mut at: int = 0;
    loop
        invariant
            0 <= at <= text@.len(),
            rest.remaining() == text@.skip(at),
            tidy@ == collapsed(text@.take(at)),
            started == (tidy@.len() > 0),
            gap == (at > 0 && is_space(text@[at - 1])),
        decreases text@.len() - at,
    {
        match rest.next() {
            None => {
                assert(text@.take(at) == text@);
                return tidy;
            },
            Some(c) => {
                assert(text@.take(at + 1).drop_last() == text@.take(at));
                if separates_words(c) {
                    gap = true;
                } else {
                    if gap && started {
                        tidy.push(' ');
                    }
                    tidy.push(c);
                    gap = false;
                    started = true;
                }
                proof {
                    at = at + 1;
                }
            },
        }
    }
}

/// Joins pieces of text end to end.
pub fn join_pieces(pieces: &Vec<String>) -> (whole: String)
    ensures
        whole@ == pieces.deep_view().flatten(),
{
    let mut whole = String::new();
    let mut i: usize = 0;
    while i < pieces.len()
        invariant
            0 <= i <= pieces.len(),
            whole@ == pieces.deep_view().take(i as int).flatten(),
        decreases pieces.len() - i,
    {
        proof {
            let done = pieces.deep_view().take(i as int);
            assert(pieces.deep_view().take(i + 1) == done.push(pieces[i as int]@));
            done.lemma_flatten_push(pieces[i as int]@);
        }
        whole.append(pieces[i].as_str());
        i += 1;
    }
    assert(pieces.deep_view().take(i as int) == pieces.deep_view());
    whole
}

} // verus!
