//! Text preparation for the PDF report: the report's fonts only carry
//! Latin-1 letters, so accented Portuguese letters are spelled without
//! accents, and long text is wrapped into lines.
//!
//! Laying out and writing the PDF is left to the caller.

use crate::scanner::result::{IpAddress, PortStatus, ProbeResult, ScanReport};
use crate::text::{chars_of, decimal_digits, decimal_string, is_space, is_space_char, push_char, string_from_chars, truncate, truncated};
use vstd::prelude::*;

verus! {

/// The letter written in place of an accented Portuguese letter; every
/// other character is kept.
pub open spec fn plain_letter(c: char) -> char {
    if c == 'á' || c == 'à' || c == 'â' || c == 'ã' {
        'a'
    } else if c == 'é' || c == 'è' || c == 'ê' {
        'e'
    } else if c == 'í' || c == 'ì' || c == 'î' {
        'i'
    } else if c == 'ó' || c == 'ò' || c == 'ô' || c == 'õ' {
        'o'
    } else if c == 'ú' || c == 'ù' || c == 'û' {
        'u'
    } else if c == 'ç' {
        'c'
    } else if c == 'Á' || c == 'À' || c == 'Â' || c == 'Ã' {
        'A'
    } else if c == 'É' || c == 'È' || c == 'Ê' {
        'E'
    } else if c == 'Í' || c == 'Ì' || c == 'Î' {
        'I'
    } else if c == 'Ó' || c == 'Ò' || c == 'Ô' || c == 'Õ' {
        'O'
    } else if c == 'Ú' || c == 'Ù' || c == 'Û' {
        'U'
    } else if c == 'Ç' {
        'C'
    } else {
        c
    }
}

fn plain_letter_of(c: char) -> (p: char)
    ensures
        p == plain_letter(c),
{
    if c == 'á' || c == 'à' || c == 'â' || c == 'ã' {
        'a'
    } else if c == 'é' || c == 'è' || c == 'ê' {
        'e'
    } else if c == 'í' || c == 'ì' || c == 'î' {
        'i'
    } else if c == 'ó' || c == 'ò' || c == 'ô' || c == 'õ' {
        'o'
    } else if c == 'ú' || c == 'ù' || c == 'û' {
        'u'
    } else if c == 'ç' {
        'c'
    } else if c == 'Á' || c == 'À' || c == 'Â' || c == 'Ã' {
        'A'
    } else if c == 'É' || c == 'È' || c == 'Ê' {
        'E'
    } else if c == 'Í' || c == 'Ì' || c == 'Î' {
        'I'
    } else if c == 'Ó' || c == 'Ò' || c == 'Ô' || c == 'Õ' {
        'O'
    } else if c == 'Ú' || c == 'Ù' || c == 'Û' {
        'U'
    } else if c == 'Ç' {
        'C'
    } else {
        c
    }
}

/// `c` is the letter `base` written with a Portuguese accent: acute, grave,
/// circumflex or tilde on a vowel, or the cedilla on c, in either case.
pub open spec fn accented_form_of(c: char, base: char) -> bool {
    ||| base == 'a' && (c == 'á' || c == 'à' || c == 'â' || c == 'ã')
    ||| base == 'e' && (c == 'é' || c == 'è' || c == 'ê')
    ||| base == 'i' && (c == 'í' || c == 'ì' || c == 'î')
    ||| base == 'o' && (c == 'ó' || c == 'ò' || c == 'ô' || c == 'õ')
    ||| base == 'u' && (c == 'ú' || c == 'ù' || c == 'û')
    ||| base == 'c' && c == 'ç'
    ||| base == 'A' && (c == 'Á' || c == 'À' || c == 'Â' || c == 'Ã')
    ||| base == 'E' && (c == 'É' || c == 'È' || c == 'Ê')
    ||| base == 'I' && (c == 'Í' || c == 'Ì' || c == 'Î')
    ||| base == 'O' && (c == 'Ó' || c == 'Ò' || c == 'Ô' || c == 'Õ')
    ||| base == 'U' && (c == 'Ú' || c == 'Ù' || c == 'Û')
    ||| base == 'C' && c == 'Ç'
}

/// Text made safe for the report's built-in fonts keeps its length, writes
/// every accented Portuguese letter as its plain base letter, leaves every
/// other character as it was, and so holds no accented letter at all.
pub proof fn lemma_sanitized_text_has_no_accents(s: Seq<char>, out: Seq<char>)
    requires
        out == s.map_values(|c: char| plain_letter(c)),
    ensures
        out.len() == s.len(),
        forall|i: int, b: char| 0 <= i < s.len() && #[trigger] accented_form_of(s[i], b) ==> out[i] == b,
        forall|i: int| 0 <= i < s.len() && (forall|b: char| !accented_form_of(s[i], b)) ==> #[trigger] out[i] == s[i],
        forall|i: int, b: char| 0 <= i < out.len() ==> !#[trigger] accented_form_of(out[i], b),
{
    assert forall|i: int| 0 <= i < s.len() && (forall|b: char| !accented_form_of(s[i], b)) implies #[trigger] out[i]
        == s[i] by {
        let c = s[i];
        assert(!accented_form_of(c, plain_letter(c)));
    }
}

/// Spells accented Portuguese letters without their accents, character by
/// character; the length is kept.
pub fn sanitize(s: &str) -> (out: String)
    ensures
        out@ == s@.map_values(|c: char| plain_letter(c)),
{
    let cs = chars_of(s);
    let mut out = String::new();
    let mut i: usize = 0;
    while i < cs.len()
        invariant
            i <= cs@.len(),
            cs@ == s@,
            out@ == s@.take(i as int).map_values(|c: char| plain_letter(c)),
        decreases cs.len() - i,
    {
        push_char(&mut out, plain_letter_of(cs[i]));
        assert(s@.take(i + 1).map_values(|c: char| plain_letter(c)) =~= s@.take(i as int).map_values(
            |c: char| plain_letter(c),
        ).push(plain_letter(s@[i as int])));
        i = i + 1;
    }
    assert(s@.take(s@.len() as int) =~= s@);
    out
}

/// Sanitizing twice is sanitizing once.
pub proof fn lemma_sanitize_idempotent(s: Seq<char>)
    ensures
        s.map_values(|c: char| plain_letter(c)).map_values(|c: char| plain_letter(c)) == s.map_values(
            |c: char| plain_letter(c),
        ),
{
    assert(s.map_values(|c: char| plain_letter(c)).map_values(|c: char| plain_letter(c)) =~= s.map_values(
        |c: char| plain_letter(c),
    ));
}

/// Bytes of a character in UTF-8.
pub open spec fn utf8_width(c: char) -> nat {
    if (c as u32) < 0x80 {
        1
    } else if (c as u32) < 0x800 {
        2
    } else if (c as u32) < 0x10000 {
        3
    } else {
        4
    }
}

/// Bytes of a text in UTF-8.
pub open spec fn utf8_len(s: Seq<char>) -> nat
    decreases s.len(),
{
    if s.len() == 0 {
        0
    } else {
        utf8_len(s.drop_last()) + utf8_width(s.last())
    }
}

/// Places one word: a line that would grow beyond `max` bytes (with the
/// separating space) is closed first; the word then joins the current line
/// after a space, or starts it.
pub open spec fn place_word(lines: Seq<Seq<char>>, current: Seq<char>, word: Seq<char>, max: nat) -> (Seq<Seq<char>>, Seq<char>) {
    if word.len() == 0 {
        (lines, current)
    } else {
        let closes = current.len() > 0 && utf8_len(current) + 1 + utf8_len(word) > max;
        let lines2 = if closes {
            lines.push(current)
        } else {
            lines
        };
        let cur2 = if closes {
            Seq::<char>::empty()
        } else {
            current
        };
        (lines2, if cur2.len() > 0 {
            cur2.push(' ') + word
        } else {
            word
        })
    }
}

/// The lines closed, the current line and the word being read after the
/// first characters of a text: words are the runs of characters between
/// white space.
pub open spec fn wrap_state(s: Seq<char>, max: nat) -> (Seq<Seq<char>>, Seq<char>, Seq<char>)
    decreases s.len(),
{
    if s.len() == 0 {
        (Seq::empty(), Seq::empty(), Seq::empty())
    } else {
        let st = wrap_state(s.drop_last(), max);
        if is_space(s.last()) {
            let placed = place_word(st.0, st.1, st.2, max);
            (placed.0, placed.1, Seq::empty())
        } else {
            (st.0, st.1, st.2.push(s.last()))
        }
    }
}

/// The lines of a text wrapped at `max` bytes: its words in order, each
/// line holding as many as fit (a single longer word gets a line of its
/// own), separated by one space; a text without words gives one empty line.
pub open spec fn wrapped(s: Seq<char>, max: nat) -> Seq<Seq<char>> {
    let st = wrap_state(s, max);
    let placed = place_word(st.0, st.1, st.2, max);
    let lines = if placed.1.len() > 0 {
        placed.0.push(placed.1)
    } else {
        placed.0
    };
    if lines.len() == 0 {
        seq![Seq::<char>::empty()]
    } else {
        lines
    }
}

fn utf8_width_of(c: char) -> (w: usize)
    ensures
        w == utf8_width(c),
{
    let v = c as u32;
    if v < 0x80 {
        1
    } else if v < 0x800 {
        2
    } else if v < 0x10000 {
        3
    } else {
        4
    }
}

proof fn lemma_utf8_len_push(s: Seq<char>, c: char)
    ensures
        utf8_len(s.push(c)) == utf8_len(s) + utf8_width(c),
{
    assert(s.push(c).drop_last() =~= s);
}

proof fn lemma_utf8_len_concat(a: Seq<char>, b: Seq<char>)
    ensures
        utf8_len(a + b) == utf8_len(a) + utf8_len(b),
    decreases b.len(),
{
    if b.len() > 0 {
        lemma_utf8_len_concat(a, b.drop_last());
        assert((a + b).drop_last() =~= a + b.drop_last());
    } else {
        assert(a + b =~= a);
    }
}

proof fn lemma_place_word_len(lines: Seq<Seq<char>>, current: Seq<char>, word: Seq<char>, max: nat)
    ensures
        utf8_len(place_word(lines, current, word, max).1) <= utf8_len(current) + 1 + utf8_len(word),
{
    if word.len() > 0 {
        let closes = current.len() > 0 && utf8_len(current) + 1 + utf8_len(word) > max;
        if !closes && current.len() > 0 {
            lemma_utf8_len_push(current, ' ');
            lemma_utf8_len_concat(current.push(' '), word);
        }
    }
}

fn place_word_exec(
    lines: &mut Vec<Vec<char>>,
    current: &mut Vec<char>,
    current_bytes: &mut u128,
    word: &Vec<char>,
    word_bytes: u128,
    max: usize,
)
    requires
        *old(current_bytes) == utf8_len(old(current)@),
        word_bytes == utf8_len(word@),
        utf8_len(old(current)@) + 1 + utf8_len(word@) <= u128::MAX,
    ensures
        (final(lines)@.map_values(|l: Vec<char>| l@), final(current)@) == place_word(
            old(lines)@.map_values(|l: Vec<char>| l@),
            old(current)@,
            word@,
            max as nat,
        ),
        *final(current_bytes) == utf8_len(final(current)@),
{
    if word.len() == 0 {
        return;
    }
    let ghost before = lines@.map_values(|l: Vec<char>| l@);
    if current.len() > 0 && *current_bytes + 1 + word_bytes > max as u128 {
        let mut line: Vec<char> = Vec::new();
        std::mem::swap(&mut line, current);
        lines.push(line);
        *current_bytes = 0;
        assert(lines@.map_values(|l: Vec<char>| l@) =~= before.push(old(current)@));
    }
    if current.len() > 0 {
        proof {
            lemma_utf8_len_push(current@, ' ');
        }
        current.push(' ');
        *current_bytes = *current_bytes + 1;
    }
    let ghost mid = current@;
    let mut i: usize = 0;
    while i < word.len()
        invariant
            i <= word@.len(),
            current@ == mid + word@.take(i as int),
        decreases word.len() - i,
    {
        current.push(word[i]);
        assert(mid + word@.take(i + 1) =~= (mid + word@.take(i as int)).push(word@[i as int]));
        i = i + 1;
    }
    proof {
        assert(word@.take(word@.len() as int) =~= word@);
        lemma_utf8_len_concat(mid, word@);
        if mid.len() == 0 {
            assert(mid + word@ =~= word@);
        }
    }
    *current_bytes = *current_bytes + word_bytes;
}

/// Wraps text into lines of at most `max` bytes (see [`wrapped`]).
pub fn wrap_text(text: &str, max: usize) -> (out: Vec<String>)
    ensures
        out@.map_values(|l: String| l@) == wrapped(text@, max as nat),
{
    let cs = chars_of(text);
    let mut lines: Vec<Vec<char>> = Vec::new();
    let mut current: Vec<char> = Vec::new();
    let mut current_bytes: u128 = 0;
    let mut word: Vec<char> = Vec::new();
    let mut word_bytes: u128 = 0;
    let mut i: usize = 0;
    proof {
        assert(text@.take(0) =~= Seq::<char>::empty());
    }
    while i < cs.len()
        invariant
            i <= cs@.len(),
            cs@ == text@,
            (lines@.map_values(|l: Vec<char>| l@), current@, word@) == wrap_state(text@.take(i as int), max as nat),
            current_bytes == utf8_len(current@),
            word_bytes == utf8_len(word@),
            utf8_len(current@) + 1 + utf8_len(word@) <= 4 * i + 1,
        decreases cs.len() - i,
    {
        let c = cs[i];
        proof {
            assert(text@.take(i + 1).drop_last() =~= text@.take(i as int));
            assert(text@.take(i + 1).last() == c);
        }
        if is_space_char(c) {
            proof {
                lemma_place_word_len(lines@.map_values(|l: Vec<char>| l@), current@, word@, max as nat);
            }
            place_word_exec(&mut lines, &mut current, &mut current_bytes, &word, word_bytes, max);
            word = Vec::new();
            word_bytes = 0;

        } else {
            proof {
                lemma_utf8_len_push(word@, c);
            }
            word.push(c);
            word_bytes = word_bytes + utf8_width_of(c) as u128;
        }
        i = i + 1;
    }
    assert(text@.take(cs@.len() as int) =~= text@);
    place_word_exec(&mut lines, &mut current, &mut current_bytes, &word, word_bytes, max);
    let ghost placed = lines@.map_values(|l: Vec<char>| l@);
    if current.len() > 0 {
        let ghost cur = current@;
        lines.push(current);
        assert(lines@.map_values(|l: Vec<char>| l@) =~= placed.push(cur));
    }
    if lines.len() == 0 {
        lines.push(Vec::new());
        assert(lines@.map_values(|l: Vec<char>| l@) =~= seq![Seq::<char>::empty()]);
    }
    let mut out: Vec<String> = Vec::new();
    let mut k: usize = 0;
    while k < lines.len()
        invariant
            k <= lines@.len(),
            out@.len() == k,
            out@.map_values(|l: String| l@) == lines@.map_values(|l: Vec<char>| l@).take(k as int),
        decreases lines.len() - k,
    {
        let ghost prev = out@;
        let line = string_from_chars(&lines[k]);
        out.push(line);
        proof {
            let a = out@.map_values(|l: String| l@);
            let b = lines@.map_values(|l: Vec<char>| l@).take(k + 1);
            assert forall|j: int| 0 <= j < k + 1 implies a[j] == b[j] by {
                if j < k {
                    assert(out@[j] == prev[j]);
                    assert(prev.map_values(|l: String| l@)[j] == lines@.map_values(|l: Vec<char>| l@).take(k as int)[j]);
                }
            }
            assert(a =~= b);
        }
        k = k + 1;
    }
    assert(lines@.map_values(|l: Vec<char>| l@).take(lines@.len() as int) =~= lines@.map_values(|l: Vec<char>| l@));
    out
}


/// A wrapped line fits: it holds at most `max` bytes, or it is a single
/// word (no space) that is longer on its own.
pub open spec fn line_fits(l: Seq<char>, max: nat) -> bool {
    utf8_len(l) <= max || !l.contains(' ')
}

proof fn lemma_no_space_concat(a: Seq<char>, b: Seq<char>)
    requires
        !a.contains(' '),
        !b.contains(' '),
    ensures
        !(a + b).contains(' '),
{
    if (a + b).contains(' ') {
        let k = choose|k: int| 0 <= k < (a + b).len() && (a + b)[k] == ' ';
        if k < a.len() {
            assert(a[k] == ' ');
        } else {
            assert(b[k - a.len()] == ' ');
        }
    }
}

proof fn lemma_wrap_state_fits(s: Seq<char>, max: nat)
    ensures
        forall|i: int| 0 <= i < wrap_state(s, max).0.len() ==> line_fits(#[trigger] wrap_state(s, max).0[i], max),
        line_fits(wrap_state(s, max).1, max),
        !wrap_state(s, max).2.contains(' '),
    decreases s.len(),
{
    if s.len() > 0 {
        lemma_wrap_state_fits(s.drop_last(), max);
        let st = wrap_state(s.drop_last(), max);
        if is_space(s.last()) {
            lemma_place_word_fits(st.0, st.1, st.2, max);
        } else {
            assert(s.last() != ' ');
            lemma_no_space_concat(st.2, seq![s.last()]);
            assert(st.2 + seq![s.last()] =~= st.2.push(s.last()));
        }
    }
}

proof fn lemma_place_word_fits(lines: Seq<Seq<char>>, current: Seq<char>, word: Seq<char>, max: nat)
    requires
        forall|i: int| 0 <= i < lines.len() ==> line_fits(#[trigger] lines[i], max),
        line_fits(current, max),
        !word.contains(' '),
    ensures
        forall|i: int| 0 <= i < place_word(lines, current, word, max).0.len() ==> line_fits(
            #[trigger] place_word(lines, current, word, max).0[i],
            max,
        ),
        line_fits(place_word(lines, current, word, max).1, max),
{
    if word.len() > 0 {
        let closes = current.len() > 0 && utf8_len(current) + 1 + utf8_len(word) > max;
        if !closes && current.len() > 0 {
            lemma_utf8_len_push(current, ' ');
            lemma_utf8_len_concat(current.push(' '), word);
        }
        if closes {
            let placed = place_word(lines, current, word, max);
            assert(placed.0 == lines.push(current));
            assert forall|i: int| 0 <= i < placed.0.len() implies line_fits(#[trigger] placed.0[i], max) by {
                if i < lines.len() {
                    assert(placed.0[i] == lines[i]);
                }
            }
        }
    }
}

/// Wrapping keeps every line within the limit, except a line that holds a
/// single word longer than the limit on its own.
pub proof fn lemma_wrapped_lines_fit(s: Seq<char>, max: nat)
    ensures
        forall|i: int| 0 <= i < wrapped(s, max).len() ==> line_fits(#[trigger] wrapped(s, max)[i], max),
{
    lemma_wrap_state_fits(s, max);
    let st = wrap_state(s, max);
    lemma_place_word_fits(st.0, st.1, st.2, max);
    let placed = place_word(st.0, st.1, st.2, max);
    let lines = if placed.1.len() > 0 {
        placed.0.push(placed.1)
    } else {
        placed.0
    };
    assert forall|i: int| 0 <= i < lines.len() implies line_fits(#[trigger] lines[i], max) by {
        if i < placed.0.len() {
            assert(lines[i] == placed.0[i]);
        }
    }
    if lines.len() == 0 {
        let e = Seq::<char>::empty();
        assert(utf8_len(e) == 0);
        assert(wrapped(s, max) =~= seq![e]);
    }
}

/// The words of a text read so far, and the word being read: words are
/// the runs of characters between white space.
pub open spec fn word_split(s: Seq<char>) -> (Seq<Seq<char>>, Seq<char>)
    decreases s.len(),
{
    if s.len() == 0 {
        (Seq::empty(), Seq::empty())
    } else {
        let st = word_split(s.drop_last());
        if is_space(s.last()) {
            (if st.1.len() > 0 {
                st.0.push(st.1)
            } else {
                st.0
            }, Seq::empty())
        } else {
            (st.0, st.1.push(s.last()))
        }
    }
}

/// The words of a text, in order.
pub open spec fn words_of(s: Seq<char>) -> Seq<Seq<char>> {
    let st = word_split(s);
    if st.1.len() > 0 {
        st.0.push(st.1)
    } else {
        st.0
    }
}

/// The words of some lines, line after line.
pub open spec fn words_of_lines(ls: Seq<Seq<char>>) -> Seq<Seq<char>>
    decreases ls.len(),
{
    if ls.len() == 0 {
        Seq::empty()
    } else {
        words_of_lines(ls.drop_last()) + words_of(ls.last())
    }
}

/// No character of `s` is white space.
pub open spec fn no_space(s: Seq<char>) -> bool {
    forall|i: int| 0 <= i < s.len() ==> !is_space(#[trigger] s[i])
}

proof fn lemma_word_split_append(a: Seq<char>, b: Seq<char>)
    requires
        no_space(b),
    ensures
        word_split(a + b) == (word_split(a).0, word_split(a).1 + b),
    decreases b.len(),
{
    if b.len() == 0 {
        assert(a + b =~= a);
        assert(word_split(a).1 + b =~= word_split(a).1);
    } else {
        let b0 = b.drop_last();
        assert(no_space(b0)) by {
            assert forall|i: int| 0 <= i < b0.len() implies !is_space(#[trigger] b0[i]) by {
                assert(b0[i] == b[i]);
            }
        }
        lemma_word_split_append(a, b0);
        assert((a + b).drop_last() =~= a + b0);
        assert((a + b).last() == b.last());
        assert(!is_space(b[b.len() - 1]));
        assert((word_split(a).1 + b0).push(b.last()) =~= word_split(a).1 + b);
    }
}

proof fn lemma_words_of_word(w: Seq<char>)
    requires
        w.len() > 0,
        no_space(w),
    ensures
        words_of(w) == seq![w],
{
    lemma_word_split_append(Seq::empty(), w);
    assert(Seq::<char>::empty() + w =~= w);
    assert(word_split(Seq::<char>::empty()).1 + w =~= w);
    assert(Seq::<Seq<char>>::empty().push(w) =~= seq![w]);
}

proof fn lemma_words_of_joined(cur: Seq<char>, w: Seq<char>)
    requires
        w.len() > 0,
        no_space(w),
    ensures
        words_of(cur.push(' ') + w) == words_of(cur).push(w),
{
    let c = cur.push(' ');
    assert(c.drop_last() =~= cur);
    assert(is_space(c.last()));
    assert(word_split(c) == (words_of(cur), Seq::<char>::empty()));
    lemma_word_split_append(c, w);
    assert(Seq::<char>::empty() + w =~= w);
}

proof fn lemma_words_of_lines_push(ls: Seq<Seq<char>>, l: Seq<char>)
    ensures
        words_of_lines(ls.push(l)) == words_of_lines(ls) + words_of(l),
{
    assert(ls.push(l).drop_last() =~= ls);
}

proof fn lemma_place_word_words(lines: Seq<Seq<char>>, current: Seq<char>, word: Seq<char>, max: nat)
    requires
        no_space(word),
    ensures
        words_of_lines(place_word(lines, current, word, max).0) + words_of(place_word(lines, current, word, max).1)
            == words_of_lines(lines) + words_of(current) + (if word.len() > 0 {
            seq![word]
        } else {
            Seq::empty()
        }),
{
    let placed = place_word(lines, current, word, max);
    if word.len() == 0 {
        assert(words_of_lines(lines) + words_of(current) + Seq::<Seq<char>>::empty() =~= words_of_lines(lines)
            + words_of(current));
    } else {
        let closes = current.len() > 0 && utf8_len(current) + 1 + utf8_len(word) > max;
        lemma_words_of_word(word);
        if closes {
            lemma_words_of_lines_push(lines, current);
            assert(placed.0 == lines.push(current));
            assert(placed.1 == word);
        } else if current.len() > 0 {
            lemma_words_of_joined(current, word);
            assert(words_of(current).push(word) =~= words_of(current) + seq![word]);
            assert(words_of_lines(lines) + (words_of(current) + seq![word]) =~= words_of_lines(lines) + words_of(
                current,
            ) + seq![word]);
        } else {
            assert(current =~= Seq::<char>::empty());
            assert(words_of(current) =~= Seq::<Seq<char>>::empty());
            assert(words_of_lines(lines) + words_of(current) =~= words_of_lines(lines));
        }
    }
}

proof fn lemma_wrap_state_words(s: Seq<char>, max: nat)
    ensures
        wrap_state(s, max).2 == word_split(s).1,
        no_space(wrap_state(s, max).2),
        words_of_lines(wrap_state(s, max).0) + words_of(wrap_state(s, max).1) == word_split(s).0,
    decreases s.len(),
{
    if s.len() == 0 {
        assert(words_of(Seq::<char>::empty()) =~= Seq::<Seq<char>>::empty());
        assert(words_of_lines(Seq::<Seq<char>>::empty()) + Seq::<Seq<char>>::empty() =~= Seq::<Seq<char>>::empty());
    } else {
        lemma_wrap_state_words(s.drop_last(), max);
        let st = wrap_state(s.drop_last(), max);
        let ws = word_split(s.drop_last());
        if is_space(s.last()) {
            lemma_place_word_words(st.0, st.1, st.2, max);
            if st.2.len() > 0 {
                assert(ws.0 + seq![ws.1] =~= ws.0.push(ws.1));
            } else {
                assert(ws.0 + Seq::<Seq<char>>::empty() =~= ws.0);
            }
        } else {
            assert forall|i: int| 0 <= i < st.2.push(s.last()).len() implies !is_space(
                #[trigger] st.2.push(s.last())[i],
            ) by {
                if i < st.2.len() {
                    assert(st.2.push(s.last())[i] == st.2[i]);
                }
            }
        }
    }
}

/// Wrapping keeps the words of the text, in order: reading the words of
/// the lines one after the other gives the words of the text.
pub proof fn lemma_wrapped_keeps_words(s: Seq<char>, max: nat)
    ensures
        words_of_lines(wrapped(s, max)) == words_of(s),
{
    lemma_wrap_state_words(s, max);
    let st = wrap_state(s, max);
    lemma_place_word_words(st.0, st.1, st.2, max);
    let placed = place_word(st.0, st.1, st.2, max);
    let ws = word_split(s);
    let total = words_of_lines(placed.0) + words_of(placed.1);
    if st.2.len() > 0 {
        assert(ws.0 + seq![ws.1] =~= ws.0.push(ws.1));
    } else {
        assert(ws.0 + Seq::<Seq<char>>::empty() =~= ws.0);
    }
    assert(total == words_of(s));
    let lines = if placed.1.len() > 0 {
        placed.0.push(placed.1)
    } else {
        placed.0
    };
    if placed.1.len() > 0 {
        lemma_words_of_lines_push(placed.0, placed.1);
    } else {
        assert(placed.1 =~= Seq::<char>::empty());
        assert(words_of(placed.1) =~= Seq::<Seq<char>>::empty());
        assert(total =~= words_of_lines(placed.0));
    }
    if lines.len() == 0 {
        let e = Seq::<char>::empty();
        assert(words_of(e) =~= Seq::<Seq<char>>::empty());
        lemma_words_of_lines_push(Seq::<Seq<char>>::empty(), e);
        assert(seq![e] =~= Seq::<Seq<char>>::empty().push(e));
        assert(words_of_lines(Seq::<Seq<char>>::empty()) =~= Seq::<Seq<char>>::empty());
        assert(words_of_lines(lines) =~= Seq::<Seq<char>>::empty());
        assert(wrapped(s, max) =~= seq![e]);
    }
}

/// Closed lines and the current line of a wrapping in progress are full:
/// every closed line holds a word, no closed line could have taken the
/// first word of the line after it (or of the current line), and there is
/// a current line as soon as a line was closed.
spec fn lines_full(lines: Seq<Seq<char>>, current: Seq<char>, max: nat) -> bool {
    &&& forall|i: int| 0 <= i < lines.len() ==> words_of(#[trigger] lines[i]).len() > 0
    &&& forall|i: int|
        0 <= i < lines.len() - 1 ==> utf8_len(#[trigger] lines[i]) + 1 + utf8_len(words_of(lines[i + 1])[0]) > max
    &&& current.len() > 0 ==> words_of(current).len() > 0
    &&& current.len() == 0 ==> lines.len() == 0
    &&& lines.len() > 0 ==> utf8_len(lines.last()) + 1 + utf8_len(words_of(current)[0]) > max
}

proof fn lemma_place_word_full(lines: Seq<Seq<char>>, current: Seq<char>, word: Seq<char>, max: nat)
    requires
        lines_full(lines, current, max),
        no_space(word),
    ensures
        lines_full(place_word(lines, current, word, max).0, place_word(lines, current, word, max).1, max),
{
    if word.len() > 0 {
        lemma_words_of_word(word);
        let placed = place_word(lines, current, word, max);
        let closes = current.len() > 0 && utf8_len(current) + 1 + utf8_len(word) > max;
        if closes {
            let l2 = lines.push(current);
            assert(placed.0 == l2);
            assert(placed.1 == word);
            assert forall|i: int| 0 <= i < l2.len() implies words_of(#[trigger] l2[i]).len() > 0 by {
                if i < lines.len() {
                    assert(l2[i] == lines[i]);
                }
            }
            assert forall|i: int| 0 <= i < l2.len() - 1 implies utf8_len(#[trigger] l2[i]) + 1 + utf8_len(
                words_of(l2[i + 1])[0],
            ) > max by {
                assert(l2[i] == lines[i]);
                if i + 1 < lines.len() {
                    assert(l2[i + 1] == lines[i + 1]);
                } else {
                    assert(l2[i + 1] == current);
                }
            }
        } else if current.len() > 0 {
            lemma_words_of_joined(current, word);
            assert(placed.1 == current.push(' ') + word);
            assert(words_of(placed.1)[0] == words_of(current)[0]);
        } else {
            assert(placed.1 == word);
        }
    }
}

proof fn lemma_wrap_state_full(s: Seq<char>, max: nat)
    ensures
        lines_full(wrap_state(s, max).0, wrap_state(s, max).1, max),
    decreases s.len(),
{
    lemma_wrap_state_words(s, max);
    if s.len() > 0 {
        lemma_wrap_state_full(s.drop_last(), max);
        lemma_wrap_state_words(s.drop_last(), max);
        let st = wrap_state(s.drop_last(), max);
        if is_space(s.last()) {
            lemma_place_word_full(st.0, st.1, st.2, max);
        }
    }
}

/// Wrapping fills each line greedily: no line but the last could have
/// taken the first word of the next line (with its separating space)
/// within `max` bytes, and every line holds a word unless the text has
/// none, when there is a single empty line.
pub proof fn lemma_wrapped_lines_are_full(s: Seq<char>, max: nat)
    ensures
        forall|i: int|
            0 <= i < wrapped(s, max).len() - 1 ==> utf8_len(#[trigger] wrapped(s, max)[i]) + 1 + utf8_len(
                words_of(wrapped(s, max)[i + 1])[0],
            ) > max,
        forall|i: int|
            0 <= i < wrapped(s, max).len() ==> words_of(#[trigger] wrapped(s, max)[i]).len() > 0 || wrapped(s, max)
                == seq![Seq::<char>::empty()],
{
    lemma_wrap_state_full(s, max);
    lemma_wrap_state_words(s, max);
    let st = wrap_state(s, max);
    lemma_place_word_full(st.0, st.1, st.2, max);
    let placed = place_word(st.0, st.1, st.2, max);
    if placed.1.len() > 0 {
        let lines = placed.0.push(placed.1);
        assert(wrapped(s, max) == lines);
        assert forall|i: int| 0 <= i < lines.len() implies words_of(#[trigger] lines[i]).len() > 0 by {
            if i < placed.0.len() {
                assert(lines[i] == placed.0[i]);
            }
        }
        assert forall|i: int| 0 <= i < lines.len() - 1 implies utf8_len(#[trigger] lines[i]) + 1 + utf8_len(
            words_of(lines[i + 1])[0],
        ) > max by {
            assert(lines[i] == placed.0[i]);
            if i + 1 < placed.0.len() {
                assert(lines[i + 1] == placed.0[i + 1]);
            } else {
                assert(lines[i + 1] == placed.1);
            }
        }
    } else {
        assert(placed.0.len() == 0);
        assert(wrapped(s, max) == seq![Seq::<char>::empty()]);
    }
}

// ───────────────────────────── report text ─────────────────────────────

/// The upper-case form of a text, as `str::to_uppercase` gives it.
pub uninterp spec fn uppercased(s: Seq<char>) -> Seq<char>;

/// Upper-cases a text with `str::to_uppercase` (Unicode case mapping, the
/// same for every locale). The result is named by [`uppercased`]; nothing
/// more is stated of it.
#[verifier::external_body]
fn to_uppercase(s: &str) -> (u: String)
    ensures
        u@ == uppercased(s@),
{
    s.to_uppercase()
}

/// The vulnerable (open) results of one address, in scan order.
pub open spec fn open_results_of(s: Seq<ProbeResult>, ip: IpAddress) -> Seq<ProbeResult>
    decreases s.len(),
{
    if s.len() == 0 {
        Seq::empty()
    } else {
        let rest = open_results_of(s.drop_last(), ip);
        if s.last().ip == ip && s.last().status is Open {
            rest.push(s.last())
        } else {
            rest
        }
    }
}

/// The line listing one vulnerable port of an address: port/PROTOCOL
/// (service) and the description cut to 80 characters.
pub open spec fn detail_line(r: ProbeResult) -> Seq<char> {
    "  * "@ + decimal_digits(r.port as nat) + "/"@ + uppercased(r.protocol@) + " ("@ + r.service_name@
        + ") - "@ + truncated(r.description@, 80)
}

fn detail_line_of(r: &ProbeResult) -> (line: String)
    ensures
        line@ == detail_line(*r),
{
    let mut line = String::from_str("  * ");
    line.append(decimal_string(r.port as u64).as_str());
    line.append("/");
    line.append(to_uppercase(r.protocol.as_str()).as_str());
    line.append(" (");
    line.append(r.service_name.as_str());
    line.append(") - ");
    line.append(truncate(r.description.as_str(), 80).as_str());
    line
}

/// The lines listing the vulnerable ports of one address, in scan order.
pub fn ip_detail_lines(report: &ScanReport, ip: IpAddress) -> (lines: Vec<String>)
    ensures
        lines@.map_values(|l: String| l@) == open_results_of(report.results@, ip).map_values(
            |r: ProbeResult| detail_line(r),
        ),
{
    let mut lines: Vec<String> = Vec::new();
    let mut i: usize = 0;
    while i < report.results.len()
        invariant
            i <= report.results@.len(),
            lines@.map_values(|l: String| l@) == open_results_of(report.results@.take(i as int), ip).map_values(
                |r: ProbeResult| detail_line(r),
            ),
        decreases report.results.len() - i,
    {
        let r = &report.results[i];
        let ghost t = report.results@.take(i + 1);
        proof {
            assert(t.drop_last() =~= report.results@.take(i as int));
            assert(t.last() == *r);
        }
        let is_open = match r.status {
            PortStatus::Open => true,
            _ => false,
        };
        if r.ip == ip && is_open {
            let ghost before = lines@.map_values(|l: String| l@);
            let line = detail_line_of(r);
            lines.push(line);
            proof {
                assert(lines@.map_values(|l: String| l@) =~= before.push(detail_line(*r)));
                assert(open_results_of(t, ip) == open_results_of(report.results@.take(i as int), ip).push(*r));
                assert(open_results_of(t, ip).map_values(|r: ProbeResult| detail_line(r)) =~= open_results_of(
                    report.results@.take(i as int),
                    ip,
                ).map_values(|r: ProbeResult| detail_line(r)).push(detail_line(*r)));
            }
        }
        i = i + 1;
    }
    assert(report.results@.take(report.results@.len() as int) =~= report.results@);
    lines
}

/// Whole seconds between two instants given in milliseconds, rounded
/// toward zero.
pub open spec fn whole_seconds(started_ms: i64, finished_ms: i64) -> int {
    let d = finished_ms - started_ms;
    if d >= 0 {
        d / 1000
    } else {
        -((-d) / 1000)
    }
}

/// The duration in whole seconds is the elapsed time with the part below a
/// second dropped, toward zero: it lies within one second of the elapsed
/// milliseconds and never beyond them.
pub proof fn lemma_whole_seconds_truncates(started_ms: i64, finished_ms: i64)
    ensures
        ({
            let d = finished_ms - started_ms;
            let q = whole_seconds(started_ms, finished_ms);
            &&& d >= 0 ==> 0 <= q * 1000 <= d < q * 1000 + 1000
            &&& d < 0 ==> q * 1000 - 1000 < d <= q * 1000 <= 0
        }),
{
    let d = finished_ms - started_ms;
    if d >= 0 {
        vstd::arithmetic::div_mod::lemma_fundamental_div_mod(d, 1000);
    } else {
        vstd::arithmetic::div_mod::lemma_fundamental_div_mod(-d, 1000);
    }
}

/// How long a scan took, in whole seconds (rounded toward zero).
pub fn duration_seconds(started_ms: i64, finished_ms: i64) -> (secs: i64)
    ensures
        secs == whole_seconds(started_ms, finished_ms),
{
    let d: i128 = finished_ms as i128 - started_ms as i128;
    if d >= 0 {
        (d / 1000) as i64
    } else {
        let q: i128 = (-d) / 1000;
        (-q) as i64
    }
}

/// Texts joined with a separator between each two.
pub open spec fn joined(s: Seq<String>, sep: Seq<char>) -> Seq<char>
    decreases s.len(),
{
    if s.len() == 0 {
        Seq::empty()
    } else if s.len() == 1 {
        s[0]@
    } else {
        joined(s.drop_last(), sep) + sep + s.last()@
    }
}

/// The line naming the scanned prefixes, separated by commas.
pub fn prefixes_line(prefixes: &Vec<String>) -> (line: String)
    ensures
        line@ == "Scanned prefixes: "@ + joined(prefixes@, ", "@),
{
    let mut line = String::from_str("Scanned prefixes: ");
    let ghost head = line@;
    let mut i: usize = 0;
    while i < prefixes.len()
        invariant
            i <= prefixes@.len(),
            head == "Scanned prefixes: "@,
            line@ == head + joined(prefixes@.take(i as int), ", "@),
        decreases prefixes.len() - i,
    {
        let ghost t = prefixes@.take(i + 1);
        proof {
            assert(t.drop_last() =~= prefixes@.take(i as int));
        }
        if i > 0 {
            line.append(", ");
        }
        line.append(prefixes[i].as_str());
        proof {
            if i == 0 {
                assert(joined(t, ", "@) == t[0]@);
                assert(line@ =~= head + joined(t, ", "@));
            } else {
                assert(line@ =~= head + joined(t, ", "@));
            }
        }
        i = i + 1;
    }
    assert(prefixes@.take(prefixes@.len() as int) =~= prefixes@);
    line
}

} // verus!
