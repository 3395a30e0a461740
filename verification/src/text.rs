//! Text as sequences of characters: the splitting, trimming, case folding and number
//! formatting that the rest of the library is stated in.

use vstd::prelude::*;

verus! {

/// `String::push` appends one character at the end of the string.
pub assume_specification[ String::push ](s: &mut String, c: char)
    ensures
        final(s)@ == old(s)@.push(c),
;

/// The number of leading characters of `s` that differ from `c`; the whole length when `c`
/// does not occur.
pub open spec fn position_of(s: Seq<char>, c: char) -> nat
    decreases s.len(),
{
    if s.len() == 0 || s[0] == c {
        0
    } else {
        1 + position_of(s.drop_first(), c)
    }
}

/// The position of a character is where it first occurs.
pub proof fn lemma_position_of(s: Seq<char>, c: char, n: nat)
    requires
        n <= s.len(),
        forall|i: int| 0 <= i < n ==> s[i] != c,
        n < s.len() ==> s[n as int] == c,
    ensures
        position_of(s, c) == n,
    decreases n,
{
    if n > 0 {
        assert forall|i: int| 0 <= i < n - 1 implies s.drop_first()[i] != c by {
            assert(s.drop_first()[i] == s[i + 1]);
        }
        lemma_position_of(s.drop_first(), c, (n - 1) as nat);
    }
}

/// Everything before the first comma.
pub open spec fn first_field(s: Seq<char>) -> Seq<char> {
    s.take(position_of(s, ',') as int)
}

/// A line without the carriage return that belongs to its line ending.
pub open spec fn without_carriage_return(line: Seq<char>) -> Seq<char> {
    if line.len() > 0 && line.last() == '\r' {
        line.drop_last()
    } else {
        line
    }
}

/// The lines of a text. A line ends at a line feed, optionally preceded by a carriage return;
/// the ending of the last line is optional.
pub open spec fn lines(text: Seq<char>) -> Seq<Seq<char>>
    decreases text.len(),
{
    let n = position_of(text, '\n');
    if text.len() == 0 {
        Seq::empty()
    } else if n >= text.len() {
        seq![text]
    } else {
        seq![without_carriage_return(text.take(n as int))] + lines(text.skip(n as int + 1))
    }
}

/// The characters with the Unicode property `White_Space`.
pub open spec fn is_white_space(c: char) -> bool {
    ||| '\u{9}' <= c <= '\u{d}'
    ||| c == '\u{20}'
    ||| c == '\u{85}'
    ||| c == '\u{a0}'
    ||| c == '\u{1680}'
    ||| '\u{2000}' <= c <= '\u{200a}'
    ||| c == '\u{2028}'
    ||| c == '\u{2029}'
    ||| c == '\u{202f}'
    ||| c == '\u{205f}'
    ||| c == '\u{3000}'
}

/// Which characters a trimming operation removes.
#[derive(Clone, Copy)]
pub enum Trim {
    WhiteSpace,
    Only(char),
}

impl Trim {
    /// Whether `c` is removed.
    pub open spec fn removes(self, c: char) -> bool {
        match self {
            Trim::WhiteSpace => is_white_space(c),
            Trim::Only(x) => c == x,
        }
    }

    fn test(self, c: char) -> (r: bool)
        ensures
            r == self.removes(c),
    {
        match self {
            Trim::WhiteSpace => {
                ('\u{9}' <= c && c <= '\u{d}') || c == '\u{20}' || c == '\u{85}' || c == '\u{a0}'
                    || c == '\u{1680}' || ('\u{2000}' <= c && c <= '\u{200a}') || c == '\u{2028}'
                    || c == '\u{2029}' || c == '\u{202f}' || c == '\u{205f}' || c == '\u{3000}'
            },
            Trim::Only(x) => c == x,
        }
    }
}

/// `s` without the leading characters that `trim` removes.
pub open spec fn trim_start_by(s: Seq<char>, trim: Trim) -> Seq<char>
    decreases s.len(),
{
    if s.len() > 0 && trim.removes(s[0]) {
        trim_start_by(s.drop_first(), trim)
    } else {
        s
    }
}

/// `s` without the trailing characters that `trim` removes.
pub open spec fn trim_end_by(s: Seq<char>, trim: Trim) -> Seq<char>
    decreases s.len(),
{
    if s.len() > 0 && trim.removes(s.last()) {
        trim_end_by(s.drop_last(), trim)
    } else {
        s
    }
}

/// `s` without the leading and trailing characters that `trim` removes.
pub open spec fn trim_by(s: Seq<char>, trim: Trim) -> Seq<char> {
    trim_end_by(trim_start_by(s, trim), trim)
}

/// `s` without leading and trailing white space.
pub open spec fn trimmed(s: Seq<char>) -> Seq<char> {
    trim_by(s, Trim::WhiteSpace)
}

/// `s` without leading occurrences of `c`.
pub open spec fn trim_start_char(s: Seq<char>, c: char) -> Seq<char> {
    trim_start_by(s, Trim::Only(c))
}

/// `s` without trailing occurrences of `c`.
pub open spec fn trim_end_char(s: Seq<char>, c: char) -> Seq<char> {
    trim_end_by(s, Trim::Only(c))
}

/// The part of `s` behind its last slash or backslash; all of `s` when there is none.
pub open spec fn after_last_separator(s: Seq<char>) -> Seq<char>
    decreases s.len(),
{
    if s.len() == 0 || s.last() == '/' || s.last() == '\\' {
        Seq::empty()
    } else {
        after_last_separator(s.drop_last()).push(s.last())
    }
}

/// `c` with an ASCII upper-case letter replaced by the lower-case one.
pub open spec fn ascii_lower_char(c: char) -> char {
    if 'A' <= c <= 'Z' {
        (c as u8 + 32) as char
    } else {
        c
    }
}

/// `s` with its ASCII upper-case letters replaced by lower-case ones.
pub open spec fn ascii_lower(s: Seq<char>) -> Seq<char> {
    s.map_values(|c: char| ascii_lower_char(c))
}

/// `s` with every `from` replaced by `to`.
pub open spec fn with_char_replaced(s: Seq<char>, from: char, to: char) -> Seq<char> {
    s.map_values(|c: char| if c == from { to } else { c })
}

/// Whether `needle` occurs in `s` as a contiguous part.
pub open spec fn contains_text(s: Seq<char>, needle: Seq<char>) -> bool {
    exists|i: int|
        0 <= i && i + needle.len() <= s.len() && #[trigger] s.subrange(i, i + needle.len())
            == needle
}

/// The decimal digit `d`.
pub open spec fn decimal_digit(d: nat) -> char {
    (d + 48) as u8 as char
}

/// `n` in decimal notation, without leading zeros.
pub open spec fn decimal(n: nat) -> Seq<char>
    decreases n,
{
    if n < 10 {
        seq![decimal_digit(n)]
    } else {
        decimal(n / 10).push(decimal_digit(n % 10))
    }
}

/// The characters of `s`.
pub(crate) fn to_chars(s: &str) -> (chars: Vec<char>)
    ensures
        chars@ == s@,
{
    let mut chars: Vec<char> = Vec::new();
    for c in it: s.chars()
        invariant
            it.seq() == s@,
            chars@ == s@.take(it.index() as int),
    {
        chars.push(c);
    }
    assert(s@.take(s@.len() as int) == s@);
    chars
}

/// The string that holds `chars[from..to]`.
pub(crate) fn from_chars(chars: &Vec<char>, from: usize, to: usize) -> (s: String)
    requires
        from <= to <= chars@.len(),
    ensures
        s@ == chars@.subrange(from as int, to as int),
{
    let mut s = String::new();
    let mut i: usize = from;
    while i < to
        invariant
            from <= i <= to <= chars@.len(),
            s@ == chars@.subrange(from as int, i as int),
        decreases to - i,
    {
        s.push(chars[i]);
        i = i + 1;
    }
    s
}

/// Whether two texts are equal.
pub(crate) fn same_text(a: &str, b: &str) -> (same: bool)
    ensures
        same == (a@ == b@),
{
    let xs = to_chars(a);
    let ys = to_chars(b);
    if xs.len() != ys.len() {
        return false;
    }
    let mut i: usize = 0;
    while i < xs.len()
        invariant
            i <= xs@.len() == ys@.len(),
            xs@ == a@,
            ys@ == b@,
            xs@.take(i as int) == ys@.take(i as int),
        decreases xs@.len() - i,
    {
        if xs[i] != ys[i] {
            return false;
        }
        assert(xs@.take(i + 1) == xs@.take(i as int).push(xs@[i as int]));
        assert(ys@.take(i + 1) == ys@.take(i as int).push(ys@[i as int]));
        i = i + 1;
    }
    assert(xs@.take(xs@.len() as int) == xs@);
    assert(ys@.take(ys@.len() as int) == ys@);
    true
}

/// The concatenation of two texts.
pub(crate) fn joined(a: &str, b: &str) -> (s: String)
    ensures
        s@ == a@ + b@,
{
    let mut s = a.to_owned();
    s.append(b);
    s
}

/// The least `start` in `from..=to` from which on `trim` removes nothing at the front.
pub(crate) fn skip_start(chars: &Vec<char>, from: usize, to: usize, trim: Trim) -> (start: usize)
    requires
        from <= to <= chars@.len(),
    ensures
        from <= start <= to,
        chars@.subrange(start as int, to as int) == trim_start_by(
            chars@.subrange(from as int, to as int),
            trim,
        ),
{
    let mut start: usize = from;
    while start < to && trim.test(chars[start])
        invariant
            from <= start <= to <= chars@.len(),
            trim_start_by(chars@.subrange(start as int, to as int), trim) == trim_start_by(
                chars@.subrange(from as int, to as int),
                trim,
            ),
        decreases to - start,
    {
        assert(chars@.subrange(start as int, to as int).drop_first() == chars@.subrange(
            start + 1,
            to as int,
        ));
        start = start + 1;
    }
    start
}

/// The greatest `end` in `from..=to` up to which `trim` removes nothing at the back.
pub(crate) fn skip_end(chars: &Vec<char>, from: usize, to: usize, trim: Trim) -> (end: usize)
    requires
        from <= to <= chars@.len(),
    ensures
        from <= end <= to,
        chars@.subrange(from as int, end as int) == trim_end_by(
            chars@.subrange(from as int, to as int),
            trim,
        ),
{
    let mut end: usize = to;
    while from < end && trim.test(chars[end - 1])
        invariant
            from <= end <= to <= chars@.len(),
            trim_end_by(chars@.subrange(from as int, end as int), trim) == trim_end_by(
                chars@.subrange(from as int, to as int),
                trim,
            ),
        decreases end,
    {
        assert(chars@.subrange(from as int, end as int).drop_last() == chars@.subrange(
            from as int,
            end - 1,
        ));
        end = end - 1;
    }
    end
}

/// `s` without trailing occurrences of `c`.
pub(crate) fn strip_end(s: &str, c: char) -> (r: String)
    ensures
        r@ == trim_end_char(s@, c),
{
    let chars = to_chars(s);
    assert(chars@.subrange(0, chars@.len() as int) == chars@);
    let end = skip_end(&chars, 0, chars.len(), Trim::Only(c));
    from_chars(&chars, 0, end)
}

/// `s` without leading occurrences of `c`.
pub(crate) fn strip_start(s: &str, c: char) -> (r: String)
    ensures
        r@ == trim_start_char(s@, c),
{
    let chars = to_chars(s);
    assert(chars@.subrange(0, chars@.len() as int) == chars@);
    let start = skip_start(&chars, 0, chars.len(), Trim::Only(c));
    from_chars(&chars, start, chars.len())
}

/// `s` without leading and trailing white space.
pub(crate) fn strip(s: &str) -> (r: String)
    ensures
        r@ == trimmed(s@),
{
    let chars = to_chars(s);
    assert(chars@.subrange(0, chars@.len() as int) == chars@);
    let start = skip_start(&chars, 0, chars.len(), Trim::WhiteSpace);
    let end = skip_end(&chars, start, chars.len(), Trim::WhiteSpace);
    from_chars(&chars, start, end)
}

/// `c` with an ASCII upper-case letter replaced by the lower-case one.
pub(crate) fn lower_char(c: char) -> (r: char)
    ensures
        r == ascii_lower_char(c),
{
    if 'A' <= c && c <= 'Z' {
        (c as u8 + 32) as char
    } else {
        c
    }
}

/// `chars[from..to]` in ASCII lower case.
pub(crate) fn lower(chars: &Vec<char>, from: usize, to: usize) -> (r: String)
    requires
        from <= to <= chars@.len(),
    ensures
        r@ == ascii_lower(chars@.subrange(from as int, to as int)),
{
    let mut r = String::new();
    let mut i: usize = from;
    while i < to
        invariant
            from <= i <= to <= chars@.len(),
            r@ == ascii_lower(chars@.subrange(from as int, i as int)),
        decreases to - i,
    {
        assert(chars@.subrange(from as int, i + 1) == chars@.subrange(from as int, i as int).push(
            chars@[i as int],
        ));
        r.push(lower_char(chars[i]));
        i = i + 1;
    }
    r
}

/// `s` with every `from` replaced by `to`.
pub(crate) fn replaced(s: &str, from: char, to: char) -> (r: String)
    ensures
        r@ == with_char_replaced(s@, from, to),
{
    let chars = to_chars(s);
    let mut r = String::new();
    let mut i: usize = 0;
    while i < chars.len()
        invariant
            i <= chars@.len(),
            r@ == with_char_replaced(chars@.take(i as int), from, to),
        decreases chars@.len() - i,
    {
        assert(chars@.take(i + 1) == chars@.take(i as int).push(chars@[i as int]));
        if chars[i] == from {
            r.push(to);
        } else {
            r.push(chars[i]);
        }
        i = i + 1;
    }
    assert(chars@.take(chars@.len() as int) == chars@);
    r
}

/// Whether `needle` occurs in `s`.
pub(crate) fn has_text(s: &str, needle: &str) -> (found: bool)
    ensures
        found == contains_text(s@, needle@),
{
    let xs = to_chars(s);
    let ys = to_chars(needle);
    if ys.len() > xs.len() {
        return false;
    }
    let total: usize = xs.len();
    let last: usize = total - ys.len();
    let mut i: usize = 0;
    while i <= last
        invariant
            i <= last + 1,
            last + ys@.len() == xs@.len() == total,
            xs@ == s@,
            ys@ == needle@,
            forall|k: int| 0 <= k < i ==> #[trigger] s@.subrange(k, k + ys@.len()) != needle@,
        decreases last + 1 - i,
    {
        let mut j: usize = 0;
        while j < ys.len() && xs[i + j] == ys[j]
            invariant
                j <= ys@.len(),
                i <= last,
                last + ys@.len() == xs@.len() == total,
                forall|k: int| 0 <= k < j ==> xs@[i + k] == ys@[k],
            decreases ys@.len() - j,
        {
            j = j + 1;
        }
        if j == ys.len() {
            assert(s@.subrange(i as int, i + ys@.len()) == needle@);
            return true;
        }
        assert(s@.subrange(i as int, i + ys@.len())[j as int] != needle@[j as int]);
        if i == last {
            assert forall|k: int| 0 <= k && k + needle@.len() <= s@.len() implies
                #[trigger] s@.subrange(k, k + needle@.len()) != needle@ by {}
            return false;
        }
        i = i + 1;
    }
    false
}

/// `n` in decimal notation.
pub(crate) fn number(n: u128) -> (r: String)
    ensures
        r@ == decimal(n as nat),
    decreases n,
{
    let mut r = if n < 10 {
        String::new()
    } else {
        number(n / 10)
    };
    r.push(((n % 10) as u8 + 48) as char);
    assert(n < 10 ==> r@ == seq![decimal_digit(n as nat)]);
    r
}

/// A text or an error text, as values of the model.
pub open spec fn text_result(r: Result<String, String>) -> Result<Seq<char>, Seq<char>> {
    match r {
        Ok(s) => Ok(s@),
        Err(e) => Err(e@),
    }
}

/// Success or an error text, as a value of the model.
pub open spec fn done_result(r: Result<(), String>) -> Result<(), Seq<char>> {
    match r {
        Ok(_) => Ok(()),
        Err(e) => Err(e@),
    }
}

/// A text that may be missing, as a value of the model.
pub open spec fn text_option(s: Option<String>) -> Option<Seq<char>> {
    match s {
        Some(text) => Some(text@),
        None => None,
    }
}

/// A copy of a text or an error text.
pub(crate) fn copy_result(r: &Result<String, String>) -> (copy: Result<String, String>)
    ensures
        text_result(copy) == text_result(*r),
{
    match r {
        Ok(s) => Ok(s.clone()),
        Err(e) => Err(e.clone()),
    }
}

pub(crate) fn copy_done(r: &Result<(), String>) -> (copy: Result<(), String>)
    ensures
        done_result(copy) == done_result(*r),
{
    match r {
        Ok(_) => Ok(()),
        Err(e) => Err(e.clone()),
    }
}

/// Folding to lower case keeps every character in its place, and changes exactly the ASCII
/// upper-case letters, each into the letter 32 places further on.
pub proof fn law_lower_case_changes_upper_case_letters_only(s: Seq<char>)
    ensures
        ascii_lower(s).len() == s.len(),
        forall|i: int|
            0 <= i < s.len() ==> (#[trigger] ascii_lower(s)[i]) as int == s[i] as int + (if 65
                <= s[i] as int <= 90 {
                32int
            } else {
                0int
            }),
{
    assert forall|i: int| 0 <= i < s.len() implies (#[trigger] ascii_lower(s)[i]) as int
        == s[i] as int + (if 65 <= s[i] as int <= 90 {
        32int
    } else {
        0int
    }) by {
        let c = s[i];
        assert(ascii_lower(s)[i] == ascii_lower_char(c));
        if 65 <= c as int <= 90 {
            assert((c as u8 + 32) as char as int == c as int + 32);
        }
    }
}

/// Replacing a character keeps the length, puts `to` where `from` was, and leaves every other
/// character as it is.
pub proof fn law_replacing_changes_one_character_only(s: Seq<char>, from: char, to: char)
    ensures
        with_char_replaced(s, from, to).len() == s.len(),
        forall|i: int|
            0 <= i < s.len() ==> #[trigger] with_char_replaced(s, from, to)[i] == (if s[i] == from {
                to
            } else {
                s[i]
            }),
{
}

/// White space is, among the ASCII characters, the space and what lies between tab and carriage
/// return, and beyond them the spaces and the line separators of Unicode.
pub proof fn law_white_space(c: char)
    ensures
        (c as int) < 128 ==> (is_white_space(c) <==> c as int == 32 || 9 <= c as int <= 13),
        (c as int) >= 128 ==> (is_white_space(c) <==> c as int == 133 || c as int == 160 || c as int
            == 5760 || 8192 <= c as int <= 8202 || c as int == 8232 || c as int == 8233 || c as int
            == 8239 || c as int == 8287 || c as int == 12288),
{
}

/// Trimming the start takes away characters that are to be removed, as long as there are any, and
/// nothing else.
pub proof fn law_trimming_the_start_removes_no_more(s: Seq<char>, trim: Trim)
    ensures
        ({
            let kept = trim_start_by(s, trim);
            let n = s.len() - kept.len();
            &&& 0 <= n
            &&& kept == s.skip(n)
            &&& forall|i: int| 0 <= i < n ==> trim.removes(#[trigger] s[i])
            &&& kept.len() > 0 ==> !trim.removes(kept[0])
        }),
    decreases s.len(),
{
    if s.len() > 0 && trim.removes(s[0]) {
        let rest = s.drop_first();
        law_trimming_the_start_removes_no_more(rest, trim);
        let kept = trim_start_by(s, trim);
        let n = s.len() - kept.len();
        assert(kept == s.skip(n));
        assert forall|i: int| 0 <= i < n implies trim.removes(#[trigger] s[i]) by {
            if i > 0 {
                assert(s[i] == rest[i - 1]);
            }
        }
    }
}

/// Trimming the end takes away characters that are to be removed, as long as there are any, and
/// nothing else.
pub proof fn law_trimming_the_end_removes_no_more(s: Seq<char>, trim: Trim)
    ensures
        ({
            let kept = trim_end_by(s, trim);
            &&& kept.len() <= s.len()
            &&& kept == s.take(kept.len() as int)
            &&& forall|i: int| kept.len() <= i < s.len() ==> trim.removes(#[trigger] s[i])
            &&& kept.len() > 0 ==> !trim.removes(kept.last())
        }),
    decreases s.len(),
{
    if s.len() > 0 && trim.removes(s.last()) {
        let rest = s.drop_last();
        law_trimming_the_end_removes_no_more(rest, trim);
        let kept = trim_end_by(s, trim);
        assert forall|i: int| kept.len() <= i < s.len() implies trim.removes(#[trigger] s[i]) by {
            if i < s.len() - 1 {
                assert(s[i] == rest[i]);
            }
        }
    }
}

/// Trimming removes one character and no other, or white space and nothing else.
pub proof fn law_what_trimming_removes(c: char, x: char)
    ensures
        Trim::Only(x).removes(c) <==> c == x,
        Trim::WhiteSpace.removes(c) <==> is_white_space(c),
        trimmed(seq![c]) == (if is_white_space(c) {
            Seq::<char>::empty()
        } else {
            seq![c]
        }),
{
    let s = seq![c];
    assert(s.drop_first() == Seq::<char>::empty());
    assert(s.drop_last() == Seq::<char>::empty());
    reveal_with_fuel(trim_start_by, 3);
    reveal_with_fuel(trim_end_by, 3);
}

/// A text with white space around it is trimmed to the text itself, however much there is of it.
pub proof fn law_trimming_finds_the_text_within(before: Seq<char>, s: Seq<char>, after: Seq<char>)
    requires
        forall|i: int| 0 <= i < before.len() ==> is_white_space(#[trigger] before[i]),
        forall|i: int| 0 <= i < after.len() ==> is_white_space(#[trigger] after[i]),
        s.len() > 0,
        !is_white_space(s[0]),
        !is_white_space(s.last()),
    ensures
        trimmed(before + s + after) == s,
{
    lemma_trim_start_to(before, s + after, Trim::WhiteSpace);
    assert(before + s + after == before + (s + after));
    lemma_trim_end_to(s, after, Trim::WhiteSpace);
}

pub(crate) proof fn lemma_trim_start_to(before: Seq<char>, rest: Seq<char>, trim: Trim)
    requires
        forall|i: int| 0 <= i < before.len() ==> trim.removes(#[trigger] before[i]),
        rest.len() > 0 ==> !trim.removes(rest[0]),
    ensures
        trim_start_by(before + rest, trim) == rest,
    decreases before.len(),
{
    let s = before + rest;
    if before.len() == 0 {
        assert(s == rest);
    } else {
        let fewer = before.drop_first();
        assert(s[0] == before[0]);
        assert forall|i: int| 0 <= i < fewer.len() implies trim.removes(#[trigger] fewer[i]) by {
            assert(fewer[i] == before[i + 1]);
        }
        lemma_trim_start_to(fewer, rest, trim);
        assert(s.drop_first() == fewer + rest);
    }
}

pub(crate) proof fn lemma_trim_end_to(rest: Seq<char>, after: Seq<char>, trim: Trim)
    requires
        forall|i: int| 0 <= i < after.len() ==> trim.removes(#[trigger] after[i]),
        rest.len() > 0 ==> !trim.removes(rest.last()),
    ensures
        trim_end_by(rest + after, trim) == rest,
    decreases after.len(),
{
    let s = rest + after;
    if after.len() == 0 {
        assert(s == rest);
    } else {
        let fewer = after.drop_last();
        assert(s.last() == after.last());
        assert forall|i: int| 0 <= i < fewer.len() implies trim.removes(#[trigger] fewer[i]) by {
            assert(fewer[i] == after[i]);
        }
        lemma_trim_end_to(rest, fewer, trim);
        assert(s.drop_last() == rest + fewer);
    }
}

/// What stands behind the last separator is the end of the text that holds none, cut off right
/// behind one or at the very start.
pub proof fn law_name_behind_the_last_separator(s: Seq<char>)
    ensures
        ({
            let name = after_last_separator(s);
            let n = s.len() - name.len();
            &&& 0 <= n
            &&& name == s.skip(n)
            &&& !name.contains('/') && !name.contains('\\')
            &&& n > 0 ==> s[n - 1] == '/' || s[n - 1] == '\\'
        }),
    decreases s.len(),
{
    if !(s.len() == 0 || s.last() == '/' || s.last() == '\\') {
        let rest = s.drop_last();
        law_name_behind_the_last_separator(rest);
        let name = after_last_separator(s);
        let shorter = after_last_separator(rest);
        assert(name == s.skip(s.len() - name.len()));
        assert forall|i: int| 0 <= i < name.len() implies name[i] != '/' && name[i] != '\\' by {
            if i < shorter.len() {
                assert(name[i] == shorter[i]);
                assert(shorter.contains(shorter[i]));
            }
        }
    }
}

/// The first field is the start of the text that holds no comma, up to a comma or the end.
pub proof fn law_first_field_ends_at_the_comma(s: Seq<char>)
    ensures
        ({
            let field = first_field(s);
            &&& field.len() <= s.len()
            &&& field == s.take(field.len() as int)
            &&& !field.contains(',')
            &&& field.len() < s.len() ==> s[field.len() as int] == ','
        }),
{
    lemma_position_is_first(s, ',');
}

pub(crate) proof fn lemma_position_is_first(s: Seq<char>, c: char)
    ensures
        position_of(s, c) <= s.len(),
        forall|i: int| 0 <= i < position_of(s, c) ==> s[i] != c,
        position_of(s, c) < s.len() ==> s[position_of(s, c) as int] == c,
    decreases s.len(),
{
    if s.len() > 0 && s[0] != c {
        let rest = s.drop_first();
        lemma_position_is_first(rest, c);
        assert forall|i: int| 0 <= i < position_of(s, c) implies s[i] != c by {
            if i > 0 {
                assert(s[i] == rest[i - 1]);
            }
        }
    }
}

/// The lines of a text that ends in a line feed, followed by those of another, are the lines of
/// both together; a text without a line feed is a line, and a carriage return before a line feed
/// belongs to the end of the line.
pub proof fn law_lines_are_cut_at_line_feeds(a: Seq<char>, b: Seq<char>)
    ensures
        lines(a.push('\n') + b) == lines(a.push('\n')) + lines(b),
        !b.contains('\n') && b.len() > 0 ==> lines(b) == seq![b],
        !b.contains('\n') && (b.len() == 0 || b.last() != '\r') ==> {
            &&& lines(b.push('\n')) == seq![b]
            &&& lines(b.push('\r').push('\n')) == seq![b]
        },
    decreases a.len(),
{
    let text = a.push('\n');
    let n = position_of(text, '\n');
    lemma_position_is_first(text, '\n');
    assert(text.last() == '\n');
    assert(n < text.len());
    lemma_position_of(text + b, '\n', n);
    assert((text + b).take(n as int) == text.take(n as int));
    assert((text + b).skip(n as int + 1) == text.skip(n as int + 1) + b);
    if n < a.len() {
        let rest = a.skip(n as int + 1);
        assert(text.skip(n as int + 1) == rest.push('\n'));
        law_lines_are_cut_at_line_feeds(rest, b);
    } else {
        assert(text.skip(n as int + 1) == Seq::<char>::empty());
        assert(Seq::<char>::empty() + b == b);
        assert(lines(Seq::<char>::empty()) == Seq::<Seq<char>>::empty());
    }
    assert(lines(text + b) =~= lines(text) + lines(b));
    if !b.contains('\n') {
        assert forall|i: int| 0 <= i < b.len() implies b[i] != '\n' by {
            assert(b.contains(b[i]));
        }
        lemma_position_of(b, '\n', b.len());
        if b.len() == 0 || b.last() != '\r' {
            lemma_one_line(b, b);
            assert(b.push('\r').drop_last() == b);
            lemma_one_line(b.push('\r'), b);
        }
    }
}

proof fn lemma_one_line(ended: Seq<char>, line: Seq<char>)
    requires
        forall|i: int| 0 <= i < ended.len() ==> ended[i] != '\n',
        without_carriage_return(ended) == line,
    ensures
        lines(ended.push('\n')) == seq![line],
{
    let text = ended.push('\n');
    lemma_position_of(text, '\n', ended.len());
    assert(text.take(ended.len() as int) == ended);
    assert(text.skip(ended.len() as int + 1) == Seq::<char>::empty());
    assert(lines(Seq::<char>::empty()) == Seq::<Seq<char>>::empty());
    assert(lines(text) =~= seq![line]);
}

/// A text contains another exactly when it is some text, the other one, and some text.
pub proof fn law_contained_text_stands_somewhere(s: Seq<char>, needle: Seq<char>)
    ensures
        contains_text(s, needle) <==> exists|before: Seq<char>, after: Seq<char>|
            s == #[trigger] (before + needle + after),
{
    if contains_text(s, needle) {
        let i = choose|i: int|
            0 <= i && i + needle.len() <= s.len() && #[trigger] s.subrange(i, i + needle.len())
                == needle;
        assert(s == s.take(i) + needle + s.skip(i + needle.len()));
    }
    if exists|before: Seq<char>, after: Seq<char>| s == #[trigger] (before + needle + after) {
        let (before, after) = choose|before: Seq<char>, after: Seq<char>|
            s == #[trigger] (before + needle + after);
        let i = before.len() as int;
        assert(s.subrange(i, i + needle.len()) == needle);
    }
}

/// The number that decimal digits stand for.
pub open spec fn number_written(digits: Seq<char>) -> int
    decreases digits.len(),
{
    if digits.len() == 0 {
        0
    } else {
        number_written(digits.drop_last()) * 10 + (digits.last() as int - 48)
    }
}

/// A number is written with decimal digits that stand for it, without a leading zero; so no two
/// numbers are written alike.
pub proof fn law_decimal_notation_tells_the_number(n: nat)
    ensures
        number_written(decimal(n)) == n,
        decimal(n).len() > 0,
        decimal(n)[0] == '0' ==> n == 0 && decimal(n).len() == 1,
        forall|i: int| 0 <= i < decimal(n).len() ==> 48 <= (#[trigger] decimal(n)[i]) as int <= 57,
    decreases n,
{
    let digit = decimal_digit(n % 10);
    assert(digit as int == n % 10 + 48);
    let all = decimal(n);
    if n >= 10 {
        let head = decimal(n / 10);
        law_decimal_notation_tells_the_number(n / 10);
        assert(all.drop_last() == head);
        assert(all[0] == head[0]);
        assert forall|i: int| 0 <= i < all.len() implies 48 <= (#[trigger] all[i]) as int <= 57 by {
            if i < head.len() {
                assert(all[i] == head[i]);
            }
        }
    } else {
        assert(all.drop_last() == Seq::<char>::empty());
        assert(number_written(Seq::<char>::empty()) == 0);
    }
}

}
