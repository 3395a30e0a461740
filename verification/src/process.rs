//! Recognising the running game in a process listing.

use crate::text::{
    after_last_separator, ascii_lower, first_field, is_white_space,
    law_first_field_ends_at_the_comma, law_lines_are_cut_at_line_feeds,
    law_lower_case_changes_upper_case_letters_only, law_name_behind_the_last_separator,
    law_trimming_finds_the_text_within, law_trimming_the_end_removes_no_more,
    law_trimming_the_start_removes_no_more, lemma_position_is_first, lemma_position_of,
    lemma_trim_end_to, lemma_trim_start_to, lines, lower, position_of, same_text, skip_end,
    skip_start, to_chars, trim_by, trim_end_by, trim_start_by, trimmed, without_carriage_return,
    Trim,
};
use vstd::prelude::*;

verus! {

/// The lower-case file name of the executable that a line of a process listing names. A line is
/// either a path or a comma-separated record whose first field is the quoted executable.
pub open spec fn executable_name(line: Seq<char>) -> Seq<char> {
    ascii_lower(after_last_separator(trim_by(trimmed(first_field(line)), Trim::Only('"'))))
}

/// The executables of the game on the supported platforms.
pub open spec fn is_game_executable(name: Seq<char>) -> bool {
    ||| name == "projectzomboid.exe"@
    ||| name == "projectzomboid64.exe"@
    ||| name == "projectzomboid"@
}

/// Whether some line of the listing names an executable of the game.
pub open spec fn listing_names_game(text: Seq<char>) -> bool {
    exists|i: int|
        0 <= i < lines(text).len() && is_game_executable(executable_name(#[trigger] lines(text)[i]))
}

/// The least index in `from..=to` of a character `c`, or `to`.
fn find(chars: &Vec<char>, from: usize, to: usize, c: char) -> (at: usize)
    requires
        from <= to <= chars@.len(),
    ensures
        from <= at <= to,
        at - from == position_of(chars@.subrange(from as int, to as int), c),
{
    let mut at: usize = from;
    while at < to && chars[at] != c
        invariant
            from <= at <= to <= chars@.len(),
            forall|i: int| from <= i < at ==> chars@[i] != c,
        decreases to - at,
    {
        at = at + 1;
    }
    proof {
        lemma_position_of(chars@.subrange(from as int, to as int), c, (at - from) as nat);
    }
    at
}

/// The index behind the last separator in `chars[from..to]`, or `from`.
fn behind_separator(chars: &Vec<char>, from: usize, to: usize) -> (at: usize)
    requires
        from <= to <= chars@.len(),
    ensures
        from <= at <= to,
        chars@.subrange(at as int, to as int) == after_last_separator(
            chars@.subrange(from as int, to as int),
        ),
{
    let mut at: usize = to;
    while from < at && chars[at - 1] != '/' && chars[at - 1] != '\\'
        invariant
            from <= at <= to <= chars@.len(),
            after_last_separator(chars@.subrange(from as int, to as int))
                == after_last_separator(chars@.subrange(from as int, at as int))
                + chars@.subrange(at as int, to as int),
        decreases at,
    {
        let ghost head = chars@.subrange(from as int, at as int);
        assert(head.drop_last() == chars@.subrange(from as int, at - 1));
        assert(chars@.subrange(at - 1, to as int) == seq![chars@[at - 1]] + chars@.subrange(
            at as int,
            to as int,
        ));
        assert(after_last_separator(head) + chars@.subrange(at as int, to as int)
            == after_last_separator(head.drop_last()) + chars@.subrange(at - 1, to as int));
        at = at - 1;
    }
    assert(after_last_separator(chars@.subrange(from as int, at as int)) == Seq::<char>::empty());
    at
}

/// Whether the line `chars[from..to]` names an executable of the game.
fn line_names_game(chars: &Vec<char>, from: usize, to: usize) -> (r: bool)
    requires
        from <= to <= chars@.len(),
    ensures
        r == is_game_executable(executable_name(chars@.subrange(from as int, to as int))),
{
    let comma = find(chars, from, to, ',');
    let ghost line = chars@.subrange(from as int, to as int);
    assert(chars@.subrange(from as int, comma as int) == first_field(line));
    let start = skip_start(chars, from, comma, Trim::WhiteSpace);
    let end = skip_end(chars, start, comma, Trim::WhiteSpace);
    let start = skip_start(chars, start, end, Trim::Only('"'));
    let end = skip_end(chars, start, end, Trim::Only('"'));
    let start = behind_separator(chars, start, end);
    let name = lower(chars, start, end);
    same_text(name.as_str(), "projectzomboid.exe") || same_text(
        name.as_str(),
        "projectzomboid64.exe",
    ) || same_text(name.as_str(), "projectzomboid")
}

/// Whether a process listing shows the game, as a path per line or as comma-separated records.
pub fn process_list_contains_game(text: &str) -> (found: bool)
    ensures
        found == listing_names_game(text@),
{
    let chars = to_chars(text);
    let total: usize = chars.len();
    let mut from: usize = 0;
    let ghost mut done: Seq<Seq<char>> = Seq::empty();
    assert(chars@.subrange(0, total as int) == text@);
    assert(done + lines(text@) == lines(text@));
    while from < total
        invariant
            from <= total == chars@.len(),
            lines(text@) == done + lines(chars@.subrange(from as int, total as int)),
            forall|i: int|
                0 <= i < done.len() ==> !is_game_executable(executable_name(#[trigger] done[i])),
        decreases total - from,
    {
        let ghost rest = chars@.subrange(from as int, total as int);
        let at = find(&chars, from, total, '\n');
        assert(chars@.subrange(from as int, at as int) == rest.take(at - from));
        let end = if at < total && from < at && chars[at - 1] == '\r' {
            at - 1
        } else {
            at
        };
        let ghost line = chars@.subrange(from as int, end as int);
        if at < total {
            assert(line == without_carriage_return(rest.take(at - from)));
            assert(rest.skip(at - from + 1) == chars@.subrange(at + 1, total as int));
            assert(lines(rest) == seq![line] + lines(rest.skip(at - from + 1)));
        } else {
            assert(line == rest);
            assert(lines(rest) == seq![line]);
        }
        assert(lines(text@)[done.len() as int] == line);
        if line_names_game(&chars, from, end) {
            return true;
        }
        if at == total {
            assert forall|i: int| 0 <= i < lines(text@).len() implies !is_game_executable(
                executable_name(#[trigger] lines(text@)[i]),
            ) by {
                if i < done.len() {
                    assert(lines(text@)[i] == done[i]);
                }
            }
            return false;
        }
        proof {
            let before = done;
            done = done.push(line);
            assert(done + lines(rest.skip(at - from + 1)) == before + lines(rest));
        }
        from = at + 1;
    }
    assert(chars@.subrange(total as int, total as int).len() == 0);
    assert(lines(text@) == done);
    false
}

/// Whether an upload or a download has to be refused, given what listing the processes
/// returned. A listing that could not be had shows no game.
pub fn game_is_running(listing: &Option<String>) -> (running: bool)
    ensures
        running == (listing matches Some(text) && listing_names_game(text@)),
{
    match listing {
        Some(text) => process_list_contains_game(text.as_str()),
        None => false,
    }
}

proof fn lemma_line_ending_does_not_matter(line: Seq<char>)
    ensures
        executable_name(without_carriage_return(line)) == executable_name(line),
{
    if line.len() > 0 && line.last() == '\r' {
        let bare = line.drop_last();
        lemma_position_is_first(bare, ',');
        let n = position_of(bare, ',');
        assert forall|i: int| 0 <= i < n implies line[i] != ',' by {
            assert(bare[i] == line[i]);
        }
        if n < bare.len() {
            assert(bare[n as int] == line[n as int]);
            lemma_position_of(line, ',', n);
            assert(first_field(line) == first_field(bare));
        } else {
            lemma_position_of(line, ',', line.len());
            assert(first_field(bare) == bare);
            assert(first_field(line) == line);
            assert(bare.push('\r') == line);
            crate::endpoint::lemma_trim_around(bare, '\r', Trim::WhiteSpace);
        }
    }
}

proof fn lemma_last_line(text: Seq<char>)
    requires
        text.len() > 0,
    ensures
        listing_names_game(text.push('\n')) == listing_names_game(text),
    decreases text.len(),
{
    let n = position_of(text, '\n');
    let ended = text.push('\n');
    lemma_position_is_first(text, '\n');
    lemma_position_of(ended, '\n', n);
    assert(ended.take(n as int) == text.take(n as int));
    if n < text.len() {
        let rest = text.skip(n as int + 1);
        assert(ended.skip(n as int + 1) == rest.push('\n'));
        let head = seq![without_carriage_return(text.take(n as int))];
        if rest.len() > 0 {
            lemma_last_line(rest);
            lemma_names_game_in_parts(head, lines(rest), text);
            lemma_names_game_in_parts(head, lines(rest.push('\n')), ended);
            lemma_names_game_in_parts(Seq::empty(), lines(rest), rest);
            lemma_names_game_in_parts(Seq::empty(), lines(rest.push('\n')), rest.push('\n'));
        } else {
            let end = rest.push('\n');
            lemma_position_of(end, '\n', 0);
            assert(end.take(0) == Seq::<char>::empty());
            assert(end.skip(1) == Seq::<char>::empty());
            assert(lines(Seq::<char>::empty()) == Seq::<Seq<char>>::empty());
            assert(lines(end) =~= seq![Seq::<char>::empty()]);
            lemma_nothing_is_no_game();
            lemma_names_game_in_parts(head, lines(rest), text);
            lemma_names_game_in_parts(head, lines(end), ended);
        }
    } else {
        assert(text.take(n as int) == text);
        assert(ended.skip(n as int + 1) == Seq::<char>::empty());
        assert(lines(Seq::<char>::empty()) == Seq::<Seq<char>>::empty());
        lemma_line_ending_does_not_matter(text);
        assert(lines(ended) =~= seq![without_carriage_return(text)]);
        assert(lines(text)[0] == text);
        assert(lines(ended)[0] == without_carriage_return(text));
    }
}

proof fn lemma_nothing_is_no_game()
    ensures
        !is_game_executable(executable_name(Seq::empty())),
{
    reveal_strlit("projectzomboid.exe");
    reveal_strlit("projectzomboid64.exe");
    reveal_strlit("projectzomboid");
    assert(first_field(Seq::empty()) == Seq::<char>::empty());
    assert(executable_name(Seq::empty()).len() == 0);
}

/// Whether one of these lines names the game.
spec fn some_line_names_game(some: Seq<Seq<char>>) -> bool {
    exists|i: int| 0 <= i < some.len() && is_game_executable(executable_name(#[trigger] some[i]))
}

proof fn lemma_names_game_in_parts(a: Seq<Seq<char>>, b: Seq<Seq<char>>, text: Seq<char>)
    requires
        lines(text) == a + b,
    ensures
        listing_names_game(text) == (some_line_names_game(a) || some_line_names_game(b)),
{
    let all = lines(text);
    if some_line_names_game(a) {
        let i = choose|i: int|
            0 <= i < a.len() && is_game_executable(executable_name(#[trigger] a[i]));
        assert(all[i] == a[i]);
    }
    if some_line_names_game(b) {
        let i = choose|i: int|
            0 <= i < b.len() && is_game_executable(executable_name(#[trigger] b[i]));
        assert(all[a.len() + i] == b[i]);
    }
    if listing_names_game(text) {
        let i = choose|i: int|
            0 <= i < all.len() && is_game_executable(executable_name(#[trigger] all[i]));
        if i < a.len() {
            assert(is_game_executable(executable_name(a[i])));
        } else {
            assert(is_game_executable(executable_name(b[i - a.len()])));
        }
    }
}

/// A listing shows the game exactly when one of its parts does, wherever it is cut into lines:
/// no line hides another, however many there are before or behind it.
pub proof fn law_no_line_hides_the_game(a: Seq<char>, b: Seq<char>)
    ensures
        listing_names_game(a.push('\n') + b) == (listing_names_game(a) || listing_names_game(b)),
        !listing_names_game(Seq::empty()),
{
    law_lines_are_cut_at_line_feeds(a, b);
    let text = a.push('\n');
    lemma_names_game_in_parts(lines(text), lines(b), text + b);
    lemma_names_game_in_parts(Seq::empty(), lines(text), text);
    lemma_names_game_in_parts(Seq::empty(), lines(b), b);
    assert(lines(Seq::<char>::empty()) == Seq::<Seq<char>>::empty());
    if a.len() > 0 {
        lemma_last_line(a);
    } else {
        lemma_position_of(text, '\n', 0);
        assert(text.take(0) == Seq::<char>::empty());
        assert(text.skip(1) == Seq::<char>::empty());
        assert(lines(text) =~= seq![Seq::<char>::empty()]);
        lemma_nothing_is_no_game();
    }
}

/// Whether `name` is one of the game's executables, in any ASCII case.
pub open spec fn is_name_of_game(name: Seq<char>) -> bool {
    exists|plain: Seq<char>|
        (plain == "projectzomboid.exe"@ || plain == "projectzomboid64.exe"@ || plain
            == "projectzomboid"@) && #[trigger] is_spelling_of(name, plain)
}

/// Whether `name` is the lower-case text `plain` with some letters in upper case.
pub open spec fn is_spelling_of(name: Seq<char>, plain: Seq<char>) -> bool {
    &&& name.len() == plain.len()
    &&& forall|i: int|
        0 <= i < name.len() ==> (#[trigger] name[i] == plain[i] || (97 <= plain[i] as int <= 122
            && name[i] as int + 32 == plain[i] as int))
}

proof fn lemma_spelling(name: Seq<char>, plain: Seq<char>)
    requires
        forall|i: int| 0 <= i < plain.len() ==> !(65 <= (#[trigger] plain[i]) as int <= 90),
    ensures
        (ascii_lower(name) == plain) == is_spelling_of(name, plain),
{
    law_lower_case_changes_upper_case_letters_only(name);
    let folded = ascii_lower(name);
    if is_spelling_of(name, plain) {
        assert forall|i: int| 0 <= i < plain.len() implies folded[i] == plain[i] by {
            assert(name[i] == name[i]);
        }
        assert(folded =~= plain);
    }
    if folded == plain {
        assert forall|i: int| 0 <= i < name.len() implies (#[trigger] name[i] == plain[i] || (97
            <= plain[i] as int <= 122 && name[i] as int + 32 == plain[i] as int)) by {
            assert(folded[i] == plain[i]);
        }
    }
}

proof fn lemma_game_names(name: Seq<char>)
    ensures
        is_game_executable(ascii_lower(name)) == is_name_of_game(name),
        is_name_of_game(name) ==> {
            &&& name.len() >= 14
            &&& forall|i: int|
                0 <= i < name.len() ==> {
                    let c = #[trigger] name[i];
                    c as int >= 46 && c as int <= 122 && c != '/' && c != '\\'
                }
        },
{
    reveal_strlit("projectzomboid.exe");
    reveal_strlit("projectzomboid64.exe");
    reveal_strlit("projectzomboid");
    lemma_spelling(name, "projectzomboid.exe"@);
    lemma_spelling(name, "projectzomboid64.exe"@);
    lemma_spelling(name, "projectzomboid"@);
    if is_name_of_game(name) {
        let plain = choose|plain: Seq<char>|
            (plain == "projectzomboid.exe"@ || plain == "projectzomboid64.exe"@ || plain
                == "projectzomboid"@) && #[trigger] is_spelling_of(name, plain);
        assert forall|i: int| 0 <= i < name.len() implies {
            let c = #[trigger] name[i];
            c as int >= 46 && c as int <= 122 && c != '/' && c != '\\'
        } by {
            assert(is_spelling_of(name, plain));
            assert(plain[i] as int == 46 || 48 <= plain[i] as int <= 57 || 97 <= plain[i] as int
                <= 122);
        }
    }
    if is_game_executable(ascii_lower(name)) {
        assert(is_spelling_of(name, "projectzomboid.exe"@) || is_spelling_of(
            name,
            "projectzomboid64.exe"@,
        ) || is_spelling_of(name, "projectzomboid"@));
    }
}

/// Whether `c` ends a directory's part of a path.
spec fn separates(c: char) -> bool {
    c == '/' || c == '\\'
}

proof fn lemma_start_is_kept(dir: Seq<char>, name: Seq<char>, trim: Trim) -> (kept: Seq<char>)
    requires
        name.len() > 0,
        !trim.removes(name[0]),
        !trim.removes(name.last()),
        dir.len() > 0 ==> separates(dir.last()) && !trim.removes(dir.last()),
    ensures
        trim_by(dir + name, trim) == kept + name,
        kept.len() > 0 ==> separates(kept.last()),
        kept.len() <= dir.len(),
        forall|i: int| 0 <= i < kept.len() ==> dir.contains(#[trigger] kept[i]),
        dir.len() > 0 ==> kept.len() > 0 && kept.last() == dir.last(),
{
    let s = dir + name;
    law_trimming_the_start_removes_no_more(s, trim);
    let started = trim_start_by(s, trim);
    let n = s.len() - started.len();
    if n > dir.len() {
        assert(s[dir.len() as int] == name[0]);
    }
    if dir.len() > 0 && n >= dir.len() {
        assert(s[dir.len() - 1] == dir.last());
    }
    let kept = dir.skip(n);
    assert(started == kept + name);
    assert((kept + name).last() == name.last());
    law_trimming_the_end_removes_no_more(started, trim);
    assert forall|i: int| 0 <= i < kept.len() implies dir.contains(#[trigger] kept[i]) by {
        assert(kept[i] == dir[i + n]);
    }
    kept
}

proof fn lemma_name_is_found(dir: Seq<char>, name: Seq<char>)
    requires
        dir.len() > 0 ==> separates(dir.last()),
        forall|i: int| 0 <= i < name.len() ==> !separates(#[trigger] name[i]),
    ensures
        after_last_separator(dir + name) == name,
{
    let s = dir + name;
    law_name_behind_the_last_separator(s);
    let found = after_last_separator(s);
    let m = s.len() - found.len();
    if m < dir.len() {
        assert(found[dir.len() - 1 - m] == s[dir.len() - 1]);
        assert(found.contains(found[dir.len() - 1 - m]));
    }
    if m > dir.len() {
        assert(s[m - 1] == name[m - 1 - dir.len()]);
    }
    assert(found =~= name);
}

proof fn lemma_one_line_listing(line: Seq<char>)
    requires
        !line.contains('\n'),
        line.len() > 0,
    ensures
        listing_names_game(line) == is_game_executable(executable_name(line)),
{
    law_lines_are_cut_at_line_feeds(Seq::empty(), line);
    assert(lines(line)[0] == line);
}

/// The game is recognised by the file name of its executable, in any ASCII case: at the end of a
/// path in any directory, and in quotation marks at the start of a record of any kind.
pub proof fn law_game_is_recognised(dir: Seq<char>, name: Seq<char>, rest: Seq<char>)
    requires
        is_name_of_game(name),
    ensures
        (dir.len() == 0 || dir.last() == '/' || dir.last() == '\\') && !dir.contains(',')
            && !dir.contains('\n') ==> listing_names_game(dir + name),
        !rest.contains('\n') ==> listing_names_game(
            seq!['"'] + name + seq!['"'] + seq![','] + rest,
        ),
{
    lemma_game_names(name);
    let first = name[0];
    let last = name[name.len() - 1];
    if (dir.len() == 0 || dir.last() == '/' || dir.last() == '\\') && !dir.contains(',')
        && !dir.contains('\n') {
        let line = dir + name;
        assert forall|i: int| 0 <= i < line.len() implies line[i] != ',' && line[i] != '\n' by {
            if i < dir.len() {
                assert(dir.contains(dir[i]));
            } else {
                assert(line[i] == name[i - dir.len()]);
            }
        }
        lemma_position_of(line, ',', line.len());
        assert(first_field(line) == line);
        let kept = lemma_start_is_kept(dir, name, Trim::WhiteSpace);
        let bare = lemma_start_is_kept(kept, name, Trim::Only('"'));
        lemma_name_is_found(bare, name);
        assert(executable_name(line) == ascii_lower(name));
        lemma_one_line_listing(line);
    }
    if !rest.contains('\n') {
        let quoted = seq!['"'] + name + seq!['"'];
        let line = quoted + seq![','] + rest;
        assert forall|i: int| 0 <= i < line.len() implies line[i] != '\n' by {
            if 1 <= i < name.len() + 1 {
                assert(line[i] == name[i - 1]);
            } else if i >= name.len() + 3 {
                assert(line[i] == rest[i - name.len() - 3]);
                assert(rest.contains(line[i]));
            }
        }
        assert forall|i: int| 0 <= i < quoted.len() implies line[i] != ',' by {
            if 1 <= i < name.len() + 1 {
                assert(line[i] == name[i - 1]);
            }
        }
        lemma_position_of(line, ',', quoted.len());
        assert(first_field(line) == quoted);
        law_trimming_finds_the_text_within(Seq::empty(), quoted, Seq::empty());
        assert(Seq::<char>::empty() + quoted + Seq::<char>::empty() == quoted);
        lemma_trim_start_to(seq!['"'], name + seq!['"'], Trim::Only('"'));
        assert(seq!['"'] + (name + seq!['"']) == quoted);
        lemma_trim_end_to(name, seq!['"'], Trim::Only('"'));
        lemma_name_is_found(Seq::empty(), name);
        assert(Seq::<char>::empty() + name == name);
        assert(executable_name(line) == ascii_lower(name));
        lemma_one_line_listing(line);
    }
}

/// Whether `c` can stand beside the file name of an executable: a separator, a quotation mark, a
/// comma or white space.
pub open spec fn is_beside_a_name(c: char) -> bool {
    c == '/' || c == '\\' || c == '"' || c == ',' || is_white_space(c)
}

/// Nothing else is taken for the game: a line that shows it holds the name of one of its
/// executables as a whole, with nothing beside it that could belong to a longer name.
pub proof fn law_only_the_game_is_recognised(line: Seq<char>)
    requires
        listing_names_game(line),
        !line.contains('\n'),
    ensures
        exists|dir: Seq<char>, name: Seq<char>, rest: Seq<char>|
            {
                &&& line == #[trigger] (dir + name + rest)
                &&& is_name_of_game(name)
                &&& dir.len() > 0 ==> is_beside_a_name(dir.last())
                &&& rest.len() > 0 ==> is_beside_a_name(rest[0])
            },
{
    assert(line.len() > 0);
    lemma_one_line_listing(line);
    let field = first_field(line);
    law_first_field_ends_at_the_comma(line);
    let a = trim_start_by(field, Trim::WhiteSpace);
    law_trimming_the_start_removes_no_more(field, Trim::WhiteSpace);
    let b = trim_end_by(a, Trim::WhiteSpace);
    law_trimming_the_end_removes_no_more(a, Trim::WhiteSpace);
    let c = trim_start_by(b, Trim::Only('"'));
    law_trimming_the_start_removes_no_more(b, Trim::Only('"'));
    let d = trim_end_by(c, Trim::Only('"'));
    law_trimming_the_end_removes_no_more(c, Trim::Only('"'));
    let name = after_last_separator(d);
    law_name_behind_the_last_separator(d);
    lemma_game_names(name);
    let skipped_a = field.len() - a.len();
    let skipped_c = b.len() - c.len();
    let skipped_name = d.len() - name.len();
    let from = skipped_a + skipped_c + skipped_name;
    let to = from + name.len();
    assert(name =~= line.subrange(from, to));
    let dir = line.take(from);
    let rest = line.skip(to);
    assert(line =~= dir + name + rest);
    if dir.len() > 0 {
        if skipped_name > 0 {
            assert(dir.last() == d[skipped_name - 1]);
        } else if skipped_c > 0 {
            assert(dir.last() == b[skipped_c - 1]);
        } else {
            assert(dir.last() == field[skipped_a - 1]);
        }
    }
    if rest.len() > 0 {
        if d.len() < c.len() {
            assert(rest[0] == c[d.len() as int]);
        } else if b.len() < a.len() {
            assert(rest[0] == a[b.len() as int]);
        } else {
            assert(rest[0] == line[field.len() as int]);
        }
    }
}

}
