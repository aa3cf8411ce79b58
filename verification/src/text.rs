//! Text as a sequence of characters: trimming, splitting, joining, ordering and
//! writing numbers out.
use vstd::prelude::*;

verus! {

// ---------------------------------------------------------- characters -----
/// Whether a character has the Unicode `White_Space` property.
pub open spec fn white_space(c: char) -> bool {
    ||| '\u{9}' <= c <= '\u{d}'
    ||| c == ' ' || c == '\u{85}' || c == '\u{a0}' || c == '\u{1680}'
    ||| '\u{2000}' <= c <= '\u{200a}'
    ||| c == '\u{2028}' || c == '\u{2029}' || c == '\u{202f}' || c == '\u{205f}' || c == '\u{3000}'
}

/// Whether a character has the Unicode `White_Space` property.
pub fn is_white_space(c: char) -> (r: bool)
    ensures
        r == white_space(c),
{
    ('\u{9}' <= c && c <= '\u{d}') || c == ' ' || c == '\u{85}' || c == '\u{a0}' || c == '\u{1680}'
        || ('\u{2000}' <= c && c <= '\u{200a}') || c == '\u{2028}' || c == '\u{2029}' || c
        == '\u{202f}' || c == '\u{205f}' || c == '\u{3000}'
}

/// Whether a text holds nothing but ASCII characters.
pub open spec fn is_ascii_text(text: Seq<char>) -> bool {
    forall|i: int| 0 <= i < text.len() ==> #[trigger] text[i] < '\u{80}'
}

/// The lowercase form of an ASCII character.
pub open spec fn ascii_lowercase(c: char) -> char {
    if 'A' <= c <= 'Z' {
        (c as nat + 32) as char
    } else {
        c
    }
}

/// The Unicode lowercase form of a text that is not ASCII, as
/// `str::to_lowercase` gives it.
pub uninterp spec fn unicode_lowercase(text: Seq<char>) -> Seq<char>;

/// The lowercase form of a text.
pub open spec fn lowercase(text: Seq<char>) -> Seq<char> {
    if is_ascii_text(text) {
        text.map_values(|c: char| ascii_lowercase(c))
    } else {
        unicode_lowercase(text)
    }
}

/// `str::to_lowercase`: the result depends on the text alone. In ASCII texts `A`
/// to `Z` become `a` to `z` and nothing else changes. Every character comes to
/// one character or more.
#[verifier::external_body]
pub(crate) fn to_lowercase(text: &str) -> (r: String)
    ensures
        r@ == (if is_ascii_text(text@) {
            text@.map_values(|c: char| ascii_lowercase(c))
        } else {
            unicode_lowercase(text@)
        }),
        text@.len() > 0 ==> r@.len() > 0,
{
    text.to_lowercase()
}

/// A text between double quotes with its special characters escaped, as `{:?}`
/// writes a `str`.
pub uninterp spec fn quoted(text: Seq<char>) -> Seq<char>;

/// The `Debug` form of a `str`: the result depends on the text alone.
#[verifier::external_body]
pub(crate) fn quote(text: &str) -> (r: String)
    ensures
        r@ == quoted(text@),
{
    format!("{text:?}")
}

/// `String::push` appends the one character.
pub assume_specification[ String::push ](text: &mut String, c: char)
    ensures
        final(text)@ == old(text)@.push(c),
;

/// The characters of a text.
pub fn chars_of(text: &str) -> (r: Vec<char>)
    ensures
        r@ == text@,
{
    let mut out: Vec<char> = Vec::new();
    for c in it: text.chars()
        invariant
            it.seq() == text@,
            out@ == it.seq().take(it.index()),
    {
        out.push(c);
    }
    out
}

/// The characters of `chars` from `from` up to `to`, as a text.
pub fn text_of(chars: &Vec<char>, from: usize, to: usize) -> (r: String)
    requires
        from <= to <= chars@.len(),
    ensures
        r@ == chars@.subrange(from as int, to as int),
{
    let mut out = String::new();
    let mut i: usize = from;
    while i < to
        invariant
            from <= i <= to <= chars@.len(),
            out@ == chars@.subrange(from as int, i as int),
        decreases to - i,
    {
        out.push(chars[i]);
        i += 1;
        assert(out@ =~= chars@.subrange(from as int, i as int));
    }
    out
}

/// Whether two texts hold the same characters.
pub fn same_text(a: &str, b: &str) -> (r: bool)
    ensures
        r == (a@ == b@),
{
    let left = chars_of(a);
    let right = chars_of(b);
    same_chars(&left, &right)
}

/// Whether two lists of characters are equal.
pub fn same_chars(left: &Vec<char>, right: &Vec<char>) -> (r: bool)
    ensures
        r == (left@ == right@),
{
    if left.len() != right.len() {
        return false;
    }
    let mut i: usize = 0;
    while i < left.len()
        invariant
            i <= left@.len() == right@.len(),
            forall|k: int| 0 <= k < i ==> left@[k] == right@[k],
        decreases left@.len() - i,
    {
        if left[i] != right[i] {
            return false;
        }
        i += 1;
    }
    assert(left@ =~= right@);
    true
}

// ------------------------------------------------------------ searching -----
/// `needle` stands in `text` from position `at`.
pub open spec fn stands_at(text: Seq<char>, needle: Seq<char>, at: int) -> bool {
    0 <= at <= text.len() - needle.len() && text.subrange(at, at + needle.len()) == needle
}

/// `needle` stands in `text` somewhere.
pub open spec fn contains_text(text: Seq<char>, needle: Seq<char>) -> bool {
    exists|at: int| stands_at(text, needle, at)
}

/// Whether `needle` stands in `text` from position `at`.
pub fn matches_at(text: &Vec<char>, needle: &Vec<char>, at: usize) -> (r: bool)
    ensures
        r == stands_at(text@, needle@, at as int),
{
    if needle.len() > text.len() || at > text.len() - needle.len() {
        return false;
    }
    let mut i: usize = 0;
    while i < needle.len()
        invariant
            i <= needle@.len(),
            at + needle@.len() <= text@.len(),
            text@.len() <= usize::MAX,
            forall|k: int| 0 <= k < i ==> text@[at + k] == needle@[k],
        decreases needle@.len() - i,
    {
        if text[at + i] != needle[i] {
            assert(text@.subrange(at as int, at + needle@.len())[i as int] != needle@[i as int]);
            return false;
        }
        i += 1;
    }
    assert(text@.subrange(at as int, at + needle@.len()) =~= needle@);
    true
}

/// Whether `needle` stands in `text` somewhere.
pub fn contains_chars(text: &Vec<char>, needle: &Vec<char>) -> (r: bool)
    ensures
        r == contains_text(text@, needle@),
{
    if needle.len() > text.len() {
        return false;
    }
    let last: usize = text.len() - needle.len();
    let mut at: usize = 0;
    while at <= last
        invariant
            last == text@.len() - needle@.len(),
            at <= last + 1,
            forall|k: int| 0 <= k < at ==> !stands_at(text@, needle@, k),
        decreases last + 1 - at,
    {
        if matches_at(text, needle, at) {
            return true;
        }
        if at == last {
            assert(forall|k: int| !stands_at(text@, needle@, k));
            return false;
        }
        at += 1;
    }
    false
}

// ------------------------------------------------------------- trimming -----
/// The text without its leading white space.
pub open spec fn trim_start(text: Seq<char>) -> Seq<char>
    decreases text.len(),
{
    if text.len() > 0 && white_space(text[0]) {
        trim_start(text.skip(1))
    } else {
        text
    }
}

/// The text without its trailing white space.
pub open spec fn trim_end(text: Seq<char>) -> Seq<char>
    decreases text.len(),
{
    if text.len() > 0 && white_space(text.last()) {
        trim_end(text.drop_last())
    } else {
        text
    }
}

/// The text without white space at either end.
pub open spec fn trimmed(text: Seq<char>) -> Seq<char> {
    trim_end(trim_start(text))
}

/// The text without white space at either end.
pub fn trim(text: &str) -> (r: String)
    ensures
        r@ == trimmed(text@),
{
    let chars = chars_of(text);
    let mut from: usize = 0;
    assert(chars@.skip(0) =~= chars@);
    while from < chars.len() && is_white_space(chars[from])
        invariant
            from <= chars@.len(),
            trim_start(chars@) == trim_start(chars@.skip(from as int)),
        decreases chars@.len() - from,
    {
        assert(chars@.skip(from as int).skip(1) =~= chars@.skip(from + 1));
        from += 1;
    }
    let ghost start = chars@.skip(from as int);
    assert(trim_start(chars@) == start);
    let mut to: usize = chars.len();
    assert(chars@.subrange(from as int, to as int) =~= start);
    while to > from && is_white_space(chars[to - 1])
        invariant
            from <= to <= chars@.len(),
            trim_end(start) == trim_end(chars@.subrange(from as int, to as int)),
        decreases to,
    {
        let ghost kept = chars@.subrange(from as int, to as int);
        assert(kept.last() == chars@[to - 1]);
        assert(kept.drop_last() =~= chars@.subrange(from as int, to - 1));
        to -= 1;
    }
    text_of(&chars, from, to)
}

/// Whether nothing but white space stands in the text.
pub open spec fn is_blank(text: Seq<char>) -> bool {
    forall|i: int| 0 <= i < text.len() ==> white_space(#[trigger] text[i])
}

/// Whether nothing but white space stands in the text.
pub fn blank(text: &str) -> (r: bool)
    ensures
        r == is_blank(text@),
{
    let chars = chars_of(text);
    let mut i: usize = 0;
    while i < chars.len()
        invariant
            chars@ == text@,
            i <= chars@.len(),
            forall|k: int| 0 <= k < i ==> white_space(#[trigger] chars@[k]),
        decreases chars@.len() - i,
    {
        if !is_white_space(chars[i]) {
            assert(!white_space(text@[i as int]));
            return false;
        }
        i += 1;
    }
    true
}

/// A text is blank exactly when trimming leaves nothing of it.
pub proof fn blank_trims_to_nothing(text: Seq<char>)
    ensures
        is_blank(text) <==> trimmed(text).len() == 0,
    decreases text.len(),
{
    if text.len() > 0 && white_space(text[0]) {
        blank_trims_to_nothing(text.skip(1));
        if is_blank(text.skip(1)) {
            assert forall|i: int| 0 <= i < text.len() implies white_space(#[trigger] text[i]) by {
                if i > 0 {
                    assert(text.skip(1)[i - 1] == text[i]);
                }
            }
        }
        if is_blank(text) {
            assert forall|i: int| 0 <= i < text.skip(1).len() implies white_space(
                #[trigger] text.skip(1)[i],
            ) by {
                assert(text.skip(1)[i] == text[i + 1]);
            }
        }
    } else if text.len() > 0 {
        assert(!white_space(text[0]));
        trim_end_keeps_a_dark_start(text);
    }
}

proof fn trim_end_keeps_a_dark_start(text: Seq<char>)
    requires
        text.len() > 0,
        !white_space(text[0]),
    ensures
        trim_end(text).len() > 0,
    decreases text.len(),
{
    if white_space(text.last()) {
        assert(text.len() > 1);
        trim_end_keeps_a_dark_start(text.drop_last());
    }
}

/// The text without the characters `c` that end it.
pub open spec fn without_trailing(text: Seq<char>, c: char) -> Seq<char>
    decreases text.len(),
{
    if text.len() > 0 && text.last() == c {
        without_trailing(text.drop_last(), c)
    } else {
        text
    }
}

/// The text without the characters `c` that end it.
pub fn strip_trailing(text: &str, c: char) -> (r: String)
    ensures
        r@ == without_trailing(text@, c),
{
    let chars = chars_of(text);
    let mut to: usize = chars.len();
    assert(chars@.take(to as int) =~= chars@);
    while to > 0 && chars[to - 1] == c
        invariant
            to <= chars@.len(),
            without_trailing(chars@, c) == without_trailing(chars@.take(to as int), c),
        decreases to,
    {
        assert(chars@.take(to as int).drop_last() =~= chars@.take(to - 1));
        to -= 1;
    }
    assert(chars@.subrange(0, to as int) =~= chars@.take(to as int));
    text_of(&chars, 0, to)
}

/// What was stripped does not trail any more.
pub proof fn nothing_trails(text: Seq<char>, c: char)
    ensures
        without_trailing(text, c).len() > 0 ==> without_trailing(text, c).last() != c,
    decreases text.len(),
{
    if text.len() > 0 && text.last() == c {
        nothing_trails(text.drop_last(), c);
    }
}

// ---------------------------------------------------- splitting, joining -----
/// The words of a text: its maximal runs of characters that are not white
/// space, in order.
pub open spec fn words(text: Seq<char>) -> Seq<Seq<char>>
    decreases text.len(),
{
    if text.len() == 0 {
        Seq::empty()
    } else {
        let before = text.drop_last();
        let c = text.last();
        if white_space(c) {
            words(before)
        } else if before.len() == 0 || white_space(before.last()) {
            words(before).push(seq![c])
        } else {
            words(before).drop_last().push(words(before).last().push(c))
        }
    }
}

/// Where one text ends or the next begins with white space, their words are the
/// words of both.
pub proof fn words_of_both(a: Seq<char>, b: Seq<char>)
    requires
        a.len() == 0 || b.len() == 0 || white_space(a.last()) || white_space(b[0]),
    ensures
        words(a + b) == words(a) + words(b),
    decreases b.len(),
{
    let all = a + b;
    if b.len() == 0 {
        assert(all =~= a);
        assert(words(a) + words(b) =~= words(a));
    } else {
        let (earlier, c) = (b.drop_last(), b.last());
        assert(all.drop_last() =~= a + earlier);
        assert(all.last() == c);
        words_of_both(a, earlier);
        if !white_space(c) && earlier.len() > 0 && !white_space(earlier.last()) {
            dark_ends_have_words(earlier);
            let w = words(earlier);
            assert((words(a) + w).drop_last() =~= words(a) + w.drop_last());
            assert(words(all) =~= words(a) + words(b));
        } else if earlier.len() == 0 {
            assert(a + earlier =~= a);
            assert(words(earlier) =~= Seq::empty());
            assert(words(a) + words(earlier) =~= words(a));
            assert(words(all) =~= words(a) + words(b));
        } else {
            assert(words(all) =~= words(a) + words(b));
        }
    }
}

proof fn dark_ends_have_words(text: Seq<char>)
    requires
        text.len() > 0,
        !white_space(text.last()),
    ensures
        words(text).len() > 0,
{
}

/// A text has no words exactly when it is blank.
pub proof fn blank_has_no_words(text: Seq<char>)
    ensures
        is_blank(text) <==> words(text).len() == 0,
    decreases text.len(),
{
    if text.len() > 0 {
        let before = text.drop_last();
        blank_has_no_words(before);
        if is_blank(before) && white_space(text.last()) {
            assert forall|i: int| 0 <= i < text.len() implies white_space(#[trigger] text[i]) by {
                if i < before.len() {
                    assert(before[i] == text[i]);
                }
            }
        }
        if is_blank(text) {
            assert forall|i: int| 0 <= i < before.len() implies white_space(
                #[trigger] before[i],
            ) by {
                assert(before[i] == text[i]);
            }
            assert(white_space(text[text.len() - 1]));
        }
    }
}

/// White space around a text makes no difference to its words.
pub proof fn padding_makes_no_words(before: Seq<char>, text: Seq<char>, after: Seq<char>)
    requires
        is_blank(before),
        is_blank(after),
    ensures
        words(before + text + after) == words(text),
{
    blank_has_no_words(before);
    blank_has_no_words(after);
    words_of_both(before, text);
    words_of_both(before + text, after);
    assert(words(before + text + after) =~= words(text));
}

/// How much white space stands between two parts of a text makes no difference
/// to its words, nor which.
pub proof fn gaps_make_no_words(a: Seq<char>, gap: Seq<char>, b: Seq<char>)
    requires
        is_blank(gap),
        gap.len() > 0,
    ensures
        words(a + gap + b) == words(a) + words(b),
{
    assert(white_space(gap[0]));
    assert(white_space(gap[gap.len() - 1]));
    blank_has_no_words(gap);
    words_of_both(a, gap);
    assert((a + gap).last() == gap.last());
    words_of_both(a + gap, b);
    assert(words(a) + words(gap) =~= words(a));
}

/// A text that is a word: not empty, and without white space.
pub open spec fn is_word(text: Seq<char>) -> bool {
    text.len() > 0 && forall|i: int| 0 <= i < text.len() ==> !white_space(#[trigger] text[i])
}

/// The words of a text are words.
pub proof fn words_are_words(text: Seq<char>, i: int)
    requires
        0 <= i < words(text).len(),
    ensures
        is_word(words(text)[i]),
    decreases text.len(),
{
    let before = text.drop_last();
    let c = text.last();
    if i < words(before).len() {
        words_are_words(before, i);
    }
    if !white_space(c) && before.len() > 0 && !white_space(before.last()) {
        dark_ends_have_words(before);
        words_are_words(before, words(before).len() - 1);
    }
}

/// The one word of a word is itself.
pub proof fn a_word_is_its_own(text: Seq<char>)
    requires
        is_word(text),
    ensures
        words(text) == seq![text],
    decreases text.len(),
{
    let before = text.drop_last();
    assert(!white_space(text[text.len() - 1]));
    if before.len() == 0 {
        assert(words(before) =~= Seq::empty());
        assert(text =~= seq![text.last()]);
        assert(words(text) =~= seq![text]);
    } else {
        assert forall|i: int| 0 <= i < before.len() implies !white_space(#[trigger] before[i]) by {
            assert(before[i] == text[i]);
        }
        a_word_is_its_own(before);
        assert(!white_space(before[before.len() - 1]));
        assert(before.push(text.last()) =~= text);
        assert(words(text) =~= seq![text]);
    }
}

/// Words that were joined by spaces are the words of the result.
pub proof fn joined_words_come_apart(parts: Seq<Seq<char>>)
    requires
        forall|i: int| 0 <= i < parts.len() ==> is_word(#[trigger] parts[i]),
    ensures
        words(joined(parts, seq![' '])) == parts,
    decreases parts.len(),
{
    let space = seq![' '];
    if parts.len() == 0 {
        assert(words(joined(parts, space)) =~= parts);
    } else if parts.len() == 1 {
        assert(is_word(parts[0]));
        a_word_is_its_own(parts[0]);
        assert(seq![parts[0]] =~= parts);
    } else {
        let earlier = parts.drop_last();
        assert forall|i: int| 0 <= i < earlier.len() implies is_word(#[trigger] earlier[i]) by {
            assert(earlier[i] == parts[i]);
        }
        joined_words_come_apart(earlier);
        assert(is_word(parts[parts.len() - 1]));
        a_word_is_its_own(parts.last());
        assert(is_blank(space));
        gaps_make_no_words(joined(earlier, space), space, parts.last());
        assert(earlier + seq![parts.last()] =~= parts);
    }
}

/// Texts written one after the other with `separator` between neighbours.
pub open spec fn joined(parts: Seq<Seq<char>>, separator: Seq<char>) -> Seq<char>
    decreases parts.len(),
{
    if parts.len() == 0 {
        Seq::empty()
    } else if parts.len() == 1 {
        parts[0]
    } else {
        joined(parts.drop_last(), separator) + separator + parts.last()
    }
}

/// The contents of a list of texts.
pub open spec fn texts(parts: Seq<String>) -> Seq<Seq<char>> {
    parts.map_values(|part: String| part@)
}

/// The words of a text.
pub fn split_words(text: &str) -> (r: Vec<String>)
    ensures
        texts(r@) == words(text@),
{
    let chars = chars_of(text);
    let mut out: Vec<String> = Vec::new();
    // The word that the last character read belongs to, if it belongs to one.
    let mut current: Option<String> = None;
    let mut i: usize = 0;
    while i < chars.len()
        invariant
            i <= chars@.len(),
            current is Some <==> (i > 0 && !white_space(chars@[i - 1])),
            words(chars@.take(i as int)) == (match current {
                Some(word) => texts(out@).push(word@),
                None => texts(out@),
            }),
        decreases chars@.len() - i,
    {
        let c = chars[i];
        let ghost before = chars@.take(i as int);
        let ghost after = chars@.take(i + 1);
        assert(after.drop_last() =~= before);
        assert(after.last() == c);
        assert(i > 0 ==> before.last() == chars@[i - 1]);
        if is_white_space(c) {
            if let Some(word) = current {
                let ghost earlier = out@;
                let ghost w = word@;
                out.push(word);
                assert(texts(out@) =~= texts(earlier).push(w));
            }
            current = None;
        } else {
            match current {
                Some(mut word) => {
                    assert(words(before).drop_last() =~= texts(out@));
                    word.push(c);
                    current = Some(word);
                },
                None => {
                    let mut word = String::new();
                    word.push(c);
                    assert(word@ =~= seq![c]);
                    current = Some(word);
                },
            }
        }
        i += 1;
    }
    assert(chars@.take(i as int) =~= chars@);
    if let Some(word) = current {
        let ghost earlier = out@;
        let ghost w = word@;
        out.push(word);
        assert(texts(out@) =~= texts(earlier).push(w));
    }
    out
}

/// Texts written one after the other with `separator` between neighbours.
pub fn join(parts: &Vec<String>, separator: &str) -> (r: String)
    ensures
        r@ == joined(texts(parts@), separator@),
{
    let mut out = String::new();
    let mut i: usize = 0;
    assert(texts(parts@).take(0) =~= Seq::empty());
    assert(out@ =~= Seq::empty());
    while i < parts.len()
        invariant
            i <= parts@.len(),
            out@ == joined(texts(parts@).take(i as int), separator@),
        decreases parts@.len() - i,
    {
        let ghost next = texts(parts@).take(i + 1);
        assert(next.drop_last() =~= texts(parts@).take(i as int));
        if i > 0 {
            out.append(separator);
        }
        out.append(parts[i].as_str());
        assert(next.last() == parts@[i as int]@);
        if i == 0 {
            assert(out@ =~= parts@[0]@);
        }
        i += 1;
    }
    assert(texts(parts@).take(i as int) =~= texts(parts@));
    out
}

// ------------------------------------------------------------- ordering -----
/// The order of texts: by the first character in which they differ, a text
/// before its own continuations.
pub open spec fn text_less(a: Seq<char>, b: Seq<char>) -> bool
    decreases a.len(),
{
    if b.len() == 0 {
        false
    } else if a.len() == 0 {
        true
    } else if a[0] == b[0] {
        text_less(a.skip(1), b.skip(1))
    } else {
        a[0] < b[0]
    }
}

/// Whether `a` comes before `b` in the order of texts.
pub fn less(a: &str, b: &str) -> (r: bool)
    ensures
        r == text_less(a@, b@),
{
    let left = chars_of(a);
    let right = chars_of(b);
    let mut i: usize = 0;
    assert(left@.skip(0) =~= left@);
    assert(right@.skip(0) =~= right@);
    while i < left.len() && i < right.len()
        invariant
            left@ == a@,
            right@ == b@,
            i <= left@.len(),
            i <= right@.len(),
            text_less(left@, right@) == text_less(left@.skip(i as int), right@.skip(i as int)),
        decreases left@.len() - i,
    {
        if left[i] != right[i] {
            return left[i] < right[i];
        }
        assert(left@.skip(i as int).skip(1) =~= left@.skip(i + 1));
        assert(right@.skip(i as int).skip(1) =~= right@.skip(i + 1));
        i += 1;
    }
    i < right.len()
}

/// The order of texts puts no text before itself, never puts two texts each
/// before the other, and leaves no two different texts unordered.
pub proof fn text_order_is_total(a: Seq<char>, b: Seq<char>)
    ensures
        !text_less(a, a),
        !(text_less(a, b) && text_less(b, a)),
        text_less(a, b) || text_less(b, a) || a == b,
    decreases a.len(),
{
    if a.len() > 0 {
        text_order_is_total(a.skip(1), a.skip(1));
        if b.len() > 0 && a[0] == b[0] {
            text_order_is_total(a.skip(1), b.skip(1));
            if a.skip(1) == b.skip(1) {
                assert forall|i: int| 0 <= i < a.len() implies a[i] == b[i] by {
                    if i > 0 {
                        assert(a.skip(1)[i - 1] == b.skip(1)[i - 1]);
                    }
                }
                assert(a =~= b);
            }
        }
    } else if b.len() == 0 {
        assert(a =~= b);
    }
}

/// The order of texts is transitive.
pub proof fn text_order_is_transitive(a: Seq<char>, b: Seq<char>, c: Seq<char>)
    requires
        text_less(a, b),
        text_less(b, c),
    ensures
        text_less(a, c),
    decreases a.len(),
{
    if a.len() > 0 && a[0] == b[0] && b[0] == c[0] {
        text_order_is_transitive(a.skip(1), b.skip(1), c.skip(1));
    }
}

/// The first place in which two texts of one length differ.
pub proof fn first_difference(a: Seq<char>, b: Seq<char>, from: int) -> (i: int)
    requires
        a.len() == b.len(),
        a != b,
        0 <= from <= a.len(),
        forall|k: int| 0 <= k < from ==> a[k] == b[k],
    ensures
        0 <= i < a.len(),
        a[i] != b[i],
        forall|k: int| 0 <= k < i ==> a[k] == b[k],
    decreases a.len() - from,
{
    if from == a.len() {
        assert(a =~= b);
    }
    if a[from] != b[from] {
        from
    } else {
        first_difference(a, b, from + 1)
    }
}

/// The first place in which two texts differ decides which comes first.
pub proof fn a_difference_decides(a: Seq<char>, b: Seq<char>, i: int)
    requires
        0 <= i < a.len(),
        i < b.len(),
        forall|k: int| 0 <= k < i ==> a[k] == b[k],
        a[i] < b[i],
    ensures
        text_less(a, b),
    decreases i,
{
    if i > 0 {
        assert(a[0] == b[0]);
        assert forall|k: int| 0 <= k < i - 1 implies a.skip(1)[k] == b.skip(1)[k] by {
            assert(a[k + 1] == b[k + 1]);
        }
        a_difference_decides(a.skip(1), b.skip(1), i - 1);
    }
}

// -------------------------------------------------------------- numbers -----
/// The decimal digit of a number below ten.
pub open spec fn digit(n: nat) -> char {
    (n + 48) as char
}

/// Whether a character is one of `0` to `9`.
pub open spec fn is_digit(c: char) -> bool {
    '0' <= c && c <= '9'
}

/// The number a run of decimal digits stands for.
pub open spec fn digits_value(digits: Seq<char>) -> nat
    decreases digits.len(),
{
    if digits.len() == 0 {
        0
    } else {
        digits_value(digits.drop_last()) * 10 + (digits.last() as nat - 48) as nat
    }
}

/// Whether a text is a run of decimal digits.
pub open spec fn all_digits(text: Seq<char>) -> bool {
    text.len() > 0 && forall|i: int| 0 <= i < text.len() ==> is_digit(#[trigger] text[i])
}

/// A text without the plus sign that it may start with.
pub open spec fn without_plus(text: Seq<char>) -> Seq<char> {
    if text.len() > 0 && text[0] == '+' {
        text.skip(1)
    } else {
        text
    }
}

/// The number in a text made of an optional plus sign and decimal digits.
pub open spec fn unsigned(text: Seq<char>) -> Option<nat> {
    if all_digits(without_plus(text)) {
        Some(digits_value(without_plus(text)))
    } else {
        None
    }
}

/// What `u64`'s parser says of a text it refuses.
pub uninterp spec fn unsigned_refusal(text: Seq<char>) -> Seq<char>;

/// `str::parse::<u64>`: an optional plus sign followed by decimal digits and
/// nothing else, standing for a number that a `u64` holds. The message of a
/// refusal depends on the text alone.
#[verifier::external_body]
pub(crate) fn parse_u64(text: &str) -> (r: Result<u64, String>)
    ensures
        match r {
            Ok(n) => unsigned(text@) == Some(n as nat),
            Err(reason) => (unsigned(text@) matches Some(n) ==> n > u64::MAX) && reason@
                == unsigned_refusal(text@),
        },
{
    text.parse::<u64>().map_err(|e| e.to_string())
}

/// A number in decimal, without leading zeros.
pub open spec fn decimal(n: nat) -> Seq<char>
    decreases n,
{
    if n < 10 {
        seq![digit(n)]
    } else {
        decimal(n / 10).push(digit(n % 10))
    }
}

/// A number in decimal with zeros in front up to `width` characters.
pub open spec fn padded(n: nat, width: nat) -> Seq<char>
    decreases width,
{
    if decimal(n).len() >= width {
        decimal(n)
    } else {
        seq!['0'] + padded(n, (width - 1) as nat)
    }
}

/// A number in decimal, without leading zeros.
pub fn decimal_text(n: u64) -> (r: String)
    ensures
        r@ == decimal(n as nat),
    decreases n,
{
    if n < 10 {
        let mut out = String::new();
        out.push((48 + n as u8) as char);
        assert(out@ =~= decimal(n as nat));
        out
    } else {
        let mut out = decimal_text(n / 10);
        out.push((48 + (n % 10) as u8) as char);
        out
    }
}

/// A number in decimal with zeros in front up to `width` characters.
pub fn padded_text(n: u64, width: usize) -> (r: String)
    ensures
        r@ == padded(n as nat, width as nat),
{
    let plain = decimal_text(n);
    let mut length: usize = plain.as_str().unicode_len();
    let mut out = plain;
    while length < width
        invariant
            length == out@.len(),
            length >= decimal(n as nat).len(),
            length == decimal(n as nat).len() || length <= width,
            out@ == (if length <= decimal(n as nat).len() {
                decimal(n as nat)
            } else {
                padded(n as nat, length as nat)
            }),
        decreases width - length,
    {
        let mut longer = String::new();
        longer.push('0');
        longer.append(out.as_str());
        assert(longer@ =~= seq!['0'] + out@);
        proof {
            if length as nat == decimal(n as nat).len() {
                assert(padded(n as nat, length as nat) == decimal(n as nat));
            }
        }
        out = longer;
        length += 1;
    }
    out
}

// ----------------------------------------------------------------- laws -----
/// A number that was written in decimal reads back as itself.
pub proof fn a_decimal_reads_back(n: nat)
    ensures
        unsigned(decimal(n)) == Some(n),
{
    decimals_are_digits(n);
    assert(is_digit(decimal(n)[0]));
}

proof fn decimals_are_digits(n: nat)
    ensures
        all_digits(decimal(n)),
        digits_value(decimal(n)) == n,
    decreases n,
{
    let text = decimal(n);
    if n < 10 {
        assert(text.drop_last() =~= Seq::empty());
        assert(digits_value(text.drop_last()) == 0);
    } else {
        decimals_are_digits(n / 10);
        assert(text.drop_last() =~= decimal(n / 10));
        assert forall|i: int| 0 <= i < text.len() implies is_digit(#[trigger] text[i]) by {
            if i < text.len() - 1 {
                assert(text[i] == decimal(n / 10)[i]);
            }
        }
    }
}

/// Trimming takes the white space at both ends away and nothing else.
pub proof fn trimming_takes_only_the_ends(before: Seq<char>, text: Seq<char>, behind: Seq<char>)
    requires
        is_blank(before),
        is_blank(behind),
        text.len() > 0,
        !white_space(text[0]),
        !white_space(text.last()),
    ensures
        trimmed(before + text + behind) == text,
{
    starts_are_trimmed(before, text + behind);
    assert(before + text + behind =~= before + (text + behind));
    ends_are_trimmed(text, behind);
}

proof fn starts_are_trimmed(before: Seq<char>, text: Seq<char>)
    requires
        is_blank(before),
        text.len() > 0,
        !white_space(text[0]),
    ensures
        trim_start(before + text) == text,
    decreases before.len(),
{
    let all = before + text;
    if before.len() == 0 {
        assert(all =~= text);
    } else {
        assert(white_space(before[0]));
        assert(all[0] == before[0]);
        assert(all.skip(1) =~= before.skip(1) + text);
        assert forall|i: int| 0 <= i < before.skip(1).len() implies white_space(
            #[trigger] before.skip(1)[i],
        ) by {
            assert(white_space(before[i + 1]));
        }
        starts_are_trimmed(before.skip(1), text);
    }
}

proof fn ends_are_trimmed(text: Seq<char>, behind: Seq<char>)
    requires
        is_blank(behind),
        text.len() > 0,
        !white_space(text.last()),
    ensures
        trim_end(text + behind) == text,
    decreases behind.len(),
{
    let all = text + behind;
    if behind.len() == 0 {
        assert(all =~= text);
    } else {
        assert(white_space(behind[behind.len() - 1]));
        assert(all.last() == behind.last());
        assert(all.drop_last() =~= text + behind.drop_last());
        assert forall|i: int| 0 <= i < behind.drop_last().len() implies white_space(
            #[trigger] behind.drop_last()[i],
        ) by {
            assert(white_space(behind[i]));
        }
        ends_are_trimmed(text, behind.drop_last());
    }
}

/// Stripping takes the characters away that end a text and nothing else.
pub proof fn stripping_takes_only_the_end(text: Seq<char>, c: char, behind: Seq<char>)
    requires
        text.len() > 0 ==> text.last() != c,
        forall|i: int| 0 <= i < behind.len() ==> #[trigger] behind[i] == c,
    ensures
        without_trailing(text + behind, c) == text,
    decreases behind.len(),
{
    let all = text + behind;
    if behind.len() == 0 {
        assert(all =~= text);
    } else {
        assert(behind[behind.len() - 1] == c);
        assert(all.last() == c);
        assert(all.drop_last() =~= text + behind.drop_last());
        stripping_takes_only_the_end(text, c, behind.drop_last());
    }
}

/// A number written out holds no white space.
pub proof fn decimals_are_not_blank(n: nat)
    ensures
        decimal(n).len() > 0,
        forall|i: int| 0 <= i < decimal(n).len() ==> !white_space(#[trigger] decimal(n)[i]),
    decreases n,
{
    if n >= 10 {
        decimals_are_not_blank(n / 10);
    }
}

/// Of the ASCII characters the space, the tab and the four that end lines or pages
/// are white space, and no letter, digit or mark is.
pub proof fn ascii_white_space(c: char)
    requires
        c < '\u{80}',
    ensures
        white_space(c) <==> c == ' ' || c == '\t' || c == '\n' || c == '\u{b}' || c == '\u{c}' || c
            == '\r',
{
}

/// A text stands in another where something before it and something behind it
/// make that other text.
pub proof fn a_part_is_contained(before: Seq<char>, text: Seq<char>, behind: Seq<char>)
    ensures
        contains_text(before + text + behind, text),
{
    let all = before + text + behind;
    let at = before.len() as int;
    assert(all.subrange(at, at + text.len()) =~= text);
    assert(stands_at(all, text, at));
}

/// Joining starts with the first part.
pub proof fn joining_starts_with_the_first(first: Seq<char>, rest: Seq<Seq<char>>, sep: Seq<char>)
    requires
        rest.len() > 0,
    ensures
        joined(seq![first] + rest, sep) == first + sep + joined(rest, sep),
    decreases rest.len(),
{
    let all = seq![first] + rest;
    assert(all.last() == rest.last());
    if rest.len() == 1 {
        assert(all.drop_last() =~= seq![first]);
        assert(joined(seq![first], sep) == first);
    } else {
        assert(all.drop_last() =~= seq![first] + rest.drop_last());
        joining_starts_with_the_first(first, rest.drop_last(), sep);
        assert(joined(all, sep) =~= first + sep + joined(rest, sep));
    }
}

/// Every part stands in the whole.
pub proof fn parts_are_contained(parts: Seq<Seq<char>>, sep: Seq<char>, i: int)
    requires
        0 <= i < parts.len(),
    ensures
        exists|before: Seq<char>, behind: Seq<char>|
            joined(parts, sep) == #[trigger] (before + parts[i] + behind),
    decreases parts.len(),
{
    let nothing = Seq::<char>::empty();
    if parts.len() == 1 {
        assert(joined(parts, sep) =~= nothing + parts[i] + nothing);
    } else if i == parts.len() - 1 {
        let before = joined(parts.drop_last(), sep) + sep;
        assert(joined(parts, sep) =~= before + parts[i] + nothing);
    } else {
        let earlier = parts.drop_last();
        parts_are_contained(earlier, sep, i);
        let (before, behind) = choose|before: Seq<char>, behind: Seq<char>|
            joined(earlier, sep) == #[trigger] (before + earlier[i] + behind);
        let more = behind + sep + parts.last();
        assert(joined(parts, sep) =~= before + parts[i] + more);
    }
}

/// A text comes before every text that goes on from it, and among characters the
/// smaller comes first.
pub proof fn a_start_comes_first(start: Seq<char>, a: char, b: char, x: Seq<char>, y: Seq<char>)
    ensures
        text_less(start, start + seq![a] + x),
        a < b ==> text_less(start + seq![a] + x, start + seq![b] + y),
{
    let (p, q) = (start + seq![a] + x, start + seq![b] + y);
    text_order_is_total(start, p);
    if text_less(p, start) {
        assert(p.take(start.len() as int) =~= start);
        not_before_its_start(start, p);
    }
    if a < b {
        let i = start.len() as int;
        assert(p[i] == a && q[i] == b);
        assert forall|k: int| 0 <= k < i implies p[k] == q[k] by {
            assert(p[k] == start[k] && q[k] == start[k]);
        }
        a_difference_decides(p, q, i);
    }
}

proof fn not_before_its_start(start: Seq<char>, text: Seq<char>)
    requires
        start.len() < text.len(),
        text.take(start.len() as int) == start,
    ensures
        !text_less(text, start),
    decreases start.len(),
{
    if start.len() > 0 {
        assert(text.take(start.len() as int)[0] == start[0]);
        assert(text.skip(1).take(start.len() - 1) =~= start.skip(1)) by {
            assert forall|k: int| 0 <= k < start.len() - 1 implies text.skip(1)[k] == start.skip(
                1,
            )[k] by {
                assert(text.take(start.len() as int)[k + 1] == start[k + 1]);
            }
        }
        not_before_its_start(start.skip(1), text.skip(1));
    }
}

} // verus!
