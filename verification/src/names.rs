//! Names of directories and of the components of a save's path.

use crate::text::{
    ascii_lower, decimal, joined, law_decimal_notation_tells_the_number,
    law_lower_case_changes_upper_case_letters_only, lower, number, replaced, same_text, to_chars,
    with_char_replaced,
};
use vstd::prelude::*;

verus! {

/// Whether a directory of this name holds archive metadata of macOS and is left out everywhere.
pub open spec fn is_metadata_name(name: Seq<char>) -> bool {
    ascii_lower(name) == "__macosx"@
}

/// Whether `name` is `__MACOSX` in any ASCII case.
pub fn is_ignored_metadata_directory(name: &str) -> (ignored: bool)
    ensures
        ignored == is_metadata_name(name@),
{
    let chars = to_chars(name);
    assert(chars@.subrange(0, chars@.len() as int) == chars@);
    let folded = lower(&chars, 0, chars.len());
    same_text(folded.as_str(), "__macosx")
}

/// Whether `value` can stand as one component of a path: it is not empty, is neither of the two
/// directory references, and holds no separator and no drive mark.
pub open spec fn is_clean_component(value: Seq<char>) -> bool {
    &&& value.len() > 0
    &&& value != "."@
    &&& value != ".."@
    &&& !value.contains('/')
    &&& !value.contains('\\')
    &&& !value.contains(':')
}

/// The message for a component that is not clean.
pub open spec fn unclean_message(label: Seq<char>) -> Seq<char> {
    "无效的 "@ + label
}

fn holds(chars: &Vec<char>, c: char) -> (r: bool)
    ensures
        r == chars@.contains(c),
{
    let mut i: usize = 0;
    while i < chars.len()
        invariant
            i <= chars@.len(),
            forall|k: int| 0 <= k < i ==> chars@[k] != c,
        decreases chars@.len() - i,
    {
        if chars[i] == c {
            return true;
        }
        i = i + 1;
    }
    false
}

/// Hands `value` back when it is a clean path component, and an error that names `label` when
/// it is not.
pub fn clean_component<'a>(value: &'a str, label: &str) -> (res: Result<&'a str, String>)
    ensures
        res is Ok == is_clean_component(value@),
        res matches Ok(v) ==> v@ == value@,
        res matches Err(e) ==> e@ == unclean_message(label@),
{
    let chars = to_chars(value);
    if chars.len() == 0 || same_text(value, ".") || same_text(value, "..") || holds(&chars, '/')
        || holds(&chars, '\\') || holds(&chars, ':') {
        return Err(joined("无效的 ", label));
    }
    Ok(value)
}

/// The name under which a file stands in the archive and in the cache: its path relative to the
/// save, with slashes as separators on every platform.
pub fn archive_name(relative: &str) -> (name: String)
    ensures
        name@ == with_char_replaced(relative@, '\\', '/'),
{
    replaced(relative, '\\', '/')
}

/// The name of a temporary archive: `prefix`, the process and the time in milliseconds tell it
/// from all others.
pub fn unique_temp_path(prefix: &str, process_id: u32, now: u128) -> (name: String)
    ensures
        name@ == prefix@ + "-"@ + decimal(process_id as nat) + "-"@ + decimal(now as nat) + ".zip"@,
{
    let mut name = joined(prefix, "-");
    name.append(number(process_id as u128).as_str());
    name.append("-");
    name.append(number(now).as_str());
    name.append(".zip");
    name
}

/// The name of the directory that a downloaded save is unpacked into.
pub open spec fn staging_name(save_name: Seq<char>, process_id: u32, now: u128) -> Seq<char> {
    "."@ + save_name + ".zomboid-download-"@ + decimal(process_id as nat) + "-"@ + decimal(
        now as nat,
    )
}

/// The name of the directory that a downloaded save is unpacked into.
pub fn unique_staging_path(save_name: &str, process_id: u32, now: u128) -> (name: String)
    ensures
        name@ == staging_name(save_name@, process_id, now),
{
    let mut name = joined(".", save_name);
    name.append(".zomboid-download-");
    name.append(number(process_id as u128).as_str());
    name.append("-");
    name.append(number(now).as_str());
    name
}

/// The name under which the save that a download replaces is kept.
pub fn backup_name(staging: &str) -> (name: String)
    ensures
        name@ == staging@ + ".backup"@,
{
    joined(staging, ".backup")
}

/// The directories that a download works with are never the save itself, nor one another.
pub proof fn law_working_directories_do_not_collide(
    save_name: Seq<char>,
    process_id: u32,
    now: u128,
)
    ensures
        ({
            let staging = staging_name(save_name, process_id, now);
            let backup = staging + ".backup"@;
            staging != save_name && backup != save_name && backup != staging
        }),
{
    reveal_strlit(".");
    reveal_strlit(".backup");
    let staging = staging_name(save_name, process_id, now);
    assert(staging.len() > save_name.len());
    assert((staging + ".backup"@).len() > staging.len());
}

/// The name of an archive of the cache before it takes the place of the old one.
pub fn temporary_archive_name(process_id: u32) -> (name: String)
    ensures
        name@ == "save."@ + decimal(process_id as nat) + ".tmp"@,
{
    let mut name = joined("save.", number(process_id as u128).as_str());
    name.append(".tmp");
    name
}

/// A directory of archive metadata is told by its name alone: the eight characters of `__MACOSX`,
/// each letter in either case.
pub proof fn law_metadata_is_told_by_its_name(name: Seq<char>)
    ensures
        is_metadata_name(name) <==> {
            &&& name.len() == 8
            &&& name[0] == '_' && name[1] == '_'
            &&& name[2] == 'M' || name[2] == 'm'
            &&& name[3] == 'A' || name[3] == 'a'
            &&& name[4] == 'C' || name[4] == 'c'
            &&& name[5] == 'O' || name[5] == 'o'
            &&& name[6] == 'S' || name[6] == 's'
            &&& name[7] == 'X' || name[7] == 'x'
        },
{
    reveal_strlit("__macosx");
    law_lower_case_changes_upper_case_letters_only(name);
    let folded = ascii_lower(name);
    let plain = "__macosx"@;
    if name.len() == 8 {
        assert forall|i: int| 0 <= i < 8 implies (folded[i] == plain[i]) == (name[i] == plain[i] || (
        plain[i] != '_' && name[i] as int + 32 == plain[i] as int)) by {}
        assert(folded == plain ==> forall|i: int| 0 <= i < 8 ==> folded[i] == plain[i]);
        if name[0] == '_' && name[1] == '_' && (name[2] == 'M' || name[2] == 'm') && (name[3]
            == 'A' || name[3] == 'a') && (name[4] == 'C' || name[4] == 'c') && (name[5] == 'O'
            || name[5] == 'o') && (name[6] == 'S' || name[6] == 's') && (name[7] == 'X' || name[7]
            == 'x') {
            assert(folded =~= plain);
        }
    }
}

/// What can stand as a component of a path: any text but the empty one, one or two dots, and those
/// that hold a slash, a backslash or a colon.
pub proof fn law_clean_components(value: Seq<char>)
    ensures
        is_clean_component(value) <==> {
            &&& value.len() > 0
            &&& forall|i: int|
                0 <= i < value.len() ==> #[trigger] value[i] != '/' && value[i] != '\\' && value[i]
                    != ':'
            &&& value.len() <= 2 ==> exists|i: int|
                0 <= i < value.len() && #[trigger] value[i] != '.'
        },
{
    reveal_strlit(".");
    reveal_strlit("..");
    if value.len() == 1 && value[0] == '.' {
        assert(value =~= "."@);
    }
    if value.len() == 2 && value[0] == '.' && value[1] == '.' {
        assert(value =~= ".."@);
    }
    if is_clean_component(value) {
        assert forall|i: int| 0 <= i < value.len() implies #[trigger] value[i] != '/' && value[i]
            != '\\' && value[i] != ':' by {
            assert(value.contains(value[i]));
        }
        if value.len() == 1 {
            assert(value[0] != '.');
        }
        if value.len() == 2 {
            assert(value[0] != '.' || value[1] != '.');
        }
    }
}

/// The directory that a download is unpacked into lies beside the save and tells whose it is: its
/// name is a dot, the name of the save, a fixed text, the process and the time.
pub proof fn law_staging_directory_is_told_apart(
    save_name: Seq<char>,
    process_id: u32,
    now: u128,
    process_id_b: u32,
    now_b: u128,
)
    ensures
        ({
            let staging = staging_name(save_name, process_id, now);
            &&& staging[0] == '.'
            &&& staging.subrange(1, 1 + save_name.len() as int) == save_name
            &&& staging.len() == 1 + save_name.len() + 18 + decimal(process_id as nat).len() + 1
                + decimal(now as nat).len()
            &&& is_clean_component(save_name) ==> is_clean_component(staging)
            &&& staging == staging_name(save_name, process_id_b, now_b) ==> process_id
                == process_id_b && now == now_b
        }),
{
    reveal_strlit(".");
    reveal_strlit(".zomboid-download-");
    reveal_strlit("-");
    law_decimal_notation_tells_the_number(process_id as nat);
    law_decimal_notation_tells_the_number(now as nat);
    law_decimal_notation_tells_the_number(process_id_b as nat);
    law_decimal_notation_tells_the_number(now_b as nat);
    let staging = staging_name(save_name, process_id, now);
    let p = decimal(process_id as nat);
    let t = decimal(now as nat);
    assert(staging.subrange(1, 1 + save_name.len() as int) =~= save_name);
    let at = 1 + save_name.len() + 18;
    assert(staging.subrange(at as int, (at + p.len()) as int) =~= p);
    assert(staging[(at + p.len()) as int] == '-');
    assert(staging.skip((at + p.len() + 1) as int) =~= t);
    law_clean_components(save_name);
    law_clean_components(staging);
    if is_clean_component(save_name) {
        assert forall|i: int| 0 <= i < staging.len() implies #[trigger] staging[i] != '/'
            && staging[i] != '\\' && staging[i] != ':' by {
            if 1 <= i < 1 + save_name.len() {
                assert(staging[i] == save_name[i - 1]);
            } else if 1 + save_name.len() <= i < at {
                assert(staging[i] == ".zomboid-download-"@[i - 1 - save_name.len()]);
            } else if at <= i < at + p.len() {
                assert(staging[i] == p[i - at]);
            } else if i > at + p.len() {
                assert(staging[i] == t[i - at - p.len() - 1]);
            }
        }
    }
    let other = staging_name(save_name, process_id_b, now_b);
    let q = decimal(process_id_b as nat);
    let u = decimal(now_b as nat);
    assert(other.subrange(at as int, (at + q.len()) as int) =~= q);
    assert(other[(at + q.len()) as int] == '-');
    assert(other.skip((at + q.len() + 1) as int) =~= u);
    if staging == other {
        if p.len() < q.len() {
            assert(other[(at + p.len()) as int] == q[p.len() as int]);
        }
        if q.len() < p.len() {
            assert(staging[(at + q.len()) as int] == p[q.len() as int]);
        }
        assert(p == q);
        assert(t == u);
    }
}

}
