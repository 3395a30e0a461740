//! The fingerprint of a save: the digest of the list of its files.

use crate::digest::{
    hex_digit, hex_value, is_digest_text, law_text_digest_covers_the_text, sha256_digest,
    sha256_text, text_digest,
};
use crate::json::{json_char, json_chars, json_string, quoted};
use crate::messages::failed;
use crate::scan::{entry_views, CachedFileEntry, CachedFileEntryView};
use crate::text::{decimal, decimal_digit, number};
use vstd::prelude::*;
use vstd::utf8::encode_utf8;

verus! {

/// An entry as a JSON object.
pub open spec fn entry_json(e: CachedFileEntryView) -> Seq<char> {
    "{\"path\":"@ + (json_string(e.path) + (",\"bytes\":"@ + (decimal(e.bytes as nat) + (
    ",\"modifiedNs\":"@ + (decimal(e.modified_ns as nat) + (",\"sha256\":"@ + (json_string(
        e.sha256,
    ) + "}"@)))))))
}

/// Entries behind the first one, each behind a comma.
pub open spec fn more_entries_json(entries: Seq<CachedFileEntryView>) -> Seq<char>
    decreases entries.len(),
{
    if entries.len() == 0 {
        Seq::empty()
    } else {
        seq![','] + (entry_json(entries[0]) + more_entries_json(entries.drop_first()))
    }
}

/// The list of the files as JSON, without white space.
pub open spec fn manifest_json(entries: Seq<CachedFileEntryView>) -> Seq<char> {
    if entries.len() == 0 {
        seq!['[', ']']
    } else {
        seq!['['] + (entry_json(entries[0]) + (more_entries_json(entries.drop_first()) + seq![']']))
    }
}

/// The fingerprint of a save with these files.
pub open spec fn fingerprint_of(entries: Seq<CachedFileEntryView>) -> Seq<char> {
    text_digest(manifest_json(entries))
}

fn push_entry(json: &mut String, entry: &CachedFileEntry) -> (pushed: Result<(), String>)
    ensures
        pushed is Ok,
        final(json)@ == old(json)@ + entry_json(entry@),
{
    let path = match quoted(entry.path.as_str()) {
        Ok(text) => text,
        Err(e) => {
            return Err(e);
        },
    };
    let sha256 = match quoted(entry.sha256.as_str()) {
        Ok(text) => text,
        Err(e) => {
            return Err(e);
        },
    };
    let ghost before = json@;
    json.append("{\"path\":");
    json.append(path.as_str());
    json.append(",\"bytes\":");
    json.append(number(entry.bytes as u128).as_str());
    json.append(",\"modifiedNs\":");
    json.append(number(entry.modified_ns as u128).as_str());
    json.append(",\"sha256\":");
    json.append(sha256.as_str());
    json.append("}");
    assert(json@ == before + entry_json(entry@));
    Ok(())
}

/// The fingerprint of a save. Two lists of files have one fingerprint only if they are equal or
/// the digests of their JSON texts collide.
pub fn save_fingerprint(files: &Vec<CachedFileEntry>) -> (res: Result<String, String>)
    ensures
        res matches Ok(fingerprint) && fingerprint@ == fingerprint_of(entry_views(files@))
            && is_digest_text(fingerprint@),
{
    let ghost entries = entry_views(files@);
    let mut json = String::new();
    json.push('[');
    let mut i: usize = 0;
    while i < files.len()
        invariant
            i <= files@.len(),
            entries == entry_views(files@),
            i == 0 ==> json@ == seq!['['],
            i > 0 ==> json@ + (more_entries_json(entries.skip(i as int)) + seq![']'])
                == manifest_json(entries),
        decreases files@.len() - i,
    {
        let ghost before = json@;
        let ghost rest = entries.skip(i as int);
        if i > 0 {
            json.push(',');
        }
        match push_entry(&mut json, &files[i]) {
            Ok(_) => {},
            Err(e) => {
                return Err(failed("生成存档指纹失败", e.as_str()));
            },
        }
        proof {
            assert(rest[0] == files@[i as int]@);
            assert(rest.drop_first() == entries.skip(i + 1));
            let tail = more_entries_json(entries.skip(i + 1)) + seq![']'];
            if i > 0 {
                assert(json@ + tail == before + (more_entries_json(rest) + seq![']']));
            } else {
                assert(entries.skip(0) == entries);
                assert(json@ + tail == manifest_json(entries));
            }
        }
        i = i + 1;
    }
    json.push(']');
    proof {
        if files@.len() > 0 {
            assert(entries.skip(i as int).len() == 0);
            assert(json@ == manifest_json(entries));
        } else {
            assert(json@ == manifest_json(entries));
        }
    }
    Ok(sha256_text(json.as_str()))
}

proof fn lemma_cancel(a: Seq<char>, p: Seq<char>, q: Seq<char>)
    requires
        a + p == a + q,
    ensures
        p == q,
{
    assert(p == (a + p).skip(a.len() as int));
    assert(q == (a + q).skip(a.len() as int));
}

proof fn lemma_hex_digit_injective(a: nat, b: nat)
    requires
        a < 16,
        b < 16,
        hex_digit(a) == hex_digit(b),
    ensures
        a == b,
{
}

proof fn lemma_json_char_decodes(c: char, d: char, u: Seq<char>, v: Seq<char>)
    requires
        json_char(c) + u == json_char(d) + v,
    ensures
        c == d,
        u == v,
{
    let left = json_char(c) + u;
    let right = json_char(d) + v;
    assert(left[0] == json_char(c)[0]);
    assert(right[0] == json_char(d)[0]);
    if json_char(c).len() >= 2 && json_char(d).len() >= 2 {
        assert(left[1] == json_char(c)[1]);
        assert(right[1] == json_char(d)[1]);
    }
    if json_char(c).len() == 6 && json_char(d).len() == 6 {
        assert(left[4] == json_char(c)[4]);
        assert(right[4] == json_char(d)[4]);
        assert(left[5] == json_char(c)[5]);
        assert(right[5] == json_char(d)[5]);
        lemma_hex_digit_injective((c as u32 / 16) as nat, (d as u32 / 16) as nat);
        lemma_hex_digit_injective((c as u32 % 16) as nat, (d as u32 % 16) as nat);
    }
    assert(c == d);
    lemma_cancel(json_char(c), u, v);
}

proof fn lemma_json_chars_decode(a: Seq<char>, b: Seq<char>, x: Seq<char>, y: Seq<char>)
    requires
        json_chars(a) + (seq!['"'] + x) == json_chars(b) + (seq!['"'] + y),
    ensures
        a == b,
        x == y,
    decreases a.len(),
{
    let left = json_chars(a) + (seq!['"'] + x);
    let right = json_chars(b) + (seq!['"'] + y);
    if a.len() > 0 {
        let u = json_chars(a.drop_first()) + (seq!['"'] + x);
        assert(left == json_char(a[0]) + u);
        assert(left[0] == json_char(a[0])[0]);
        if b.len() == 0 {
            assert(right[0] == '"');
        } else {
            let v = json_chars(b.drop_first()) + (seq!['"'] + y);
            assert(right == json_char(b[0]) + v);
            lemma_json_char_decodes(a[0], b[0], u, v);
            lemma_json_chars_decode(a.drop_first(), b.drop_first(), x, y);
            assert(a == seq![a[0]] + a.drop_first());
            assert(b == seq![b[0]] + b.drop_first());
        }
    } else {
        assert(left[0] == '"');
        if b.len() > 0 {
            assert(right == json_char(b[0]) + (json_chars(b.drop_first()) + (seq!['"'] + y)));
            assert(right[0] == json_char(b[0])[0]);
        }
        assert(a == b);
        assert(left == seq!['"'] + x);
        assert(right == seq!['"'] + y);
        lemma_cancel(seq!['"'], x, y);
    }
}

proof fn lemma_json_string_decodes(a: Seq<char>, b: Seq<char>, x: Seq<char>, y: Seq<char>)
    requires
        json_string(a) + x == json_string(b) + y,
    ensures
        a == b,
        x == y,
{
    let p = json_chars(a) + (seq!['"'] + x);
    let q = json_chars(b) + (seq!['"'] + y);
    assert(json_string(a) + x == seq!['"'] + p);
    assert(json_string(b) + y == seq!['"'] + q);
    lemma_cancel(seq!['"'], p, q);
    lemma_json_chars_decode(a, b, x, y);
}

proof fn lemma_decimal_digits(n: nat)
    ensures
        decimal(n).len() > 0,
        forall|i: int| 0 <= i < decimal(n).len() ==> #[trigger] decimal(n)[i] != ',',
    decreases n,
{
    if n >= 10 {
        lemma_decimal_digits(n / 10);
    }
}

proof fn lemma_decimal_injective(n: nat, m: nat)
    requires
        decimal(n) == decimal(m),
    ensures
        n == m,
    decreases n,
{
    assert(decimal(n).last() == decimal_digit(n % 10));
    assert(decimal(m).last() == decimal_digit(m % 10));
    assert(n % 10 == m % 10);
    if n >= 10 {
        lemma_decimal_digits(n / 10);
        if m >= 10 {
            assert(decimal(n).drop_last() == decimal(n / 10));
            assert(decimal(m).drop_last() == decimal(m / 10));
            lemma_decimal_injective(n / 10, m / 10);
        }
    } else if m >= 10 {
        lemma_decimal_digits(m / 10);
    }
}

proof fn lemma_decimal_decodes(n: nat, m: nat, x: Seq<char>, y: Seq<char>)
    requires
        decimal(n) + x == decimal(m) + y,
        x.len() > 0 && x[0] == ',',
        y.len() > 0 && y[0] == ',',
    ensures
        n == m,
        x == y,
{
    let left = decimal(n) + x;
    let right = decimal(m) + y;
    lemma_decimal_digits(n);
    lemma_decimal_digits(m);
    if decimal(n).len() < decimal(m).len() {
        let i = decimal(n).len() as int;
        assert(left[i] == ',');
        assert(right[i] == decimal(m)[i]);
    } else if decimal(m).len() < decimal(n).len() {
        let i = decimal(m).len() as int;
        assert(right[i] == ',');
        assert(left[i] == decimal(n)[i]);
    }
    assert(decimal(n) == left.take(decimal(n).len() as int));
    assert(decimal(m) == right.take(decimal(m).len() as int));
    lemma_decimal_injective(n, m);
    lemma_cancel(decimal(n), x, y);
}

proof fn lemma_entry_decodes(
    a: CachedFileEntryView,
    b: CachedFileEntryView,
    x: Seq<char>,
    y: Seq<char>,
)
    requires
        entry_json(a) + x == entry_json(b) + y,
    ensures
        a == b,
        x == y,
{
    reveal_strlit(",\"bytes\":");
    reveal_strlit(",\"modifiedNs\":");
    reveal_strlit(",\"sha256\":");
    let a5 = json_string(a.sha256) + ("}"@ + x);
    let b5 = json_string(b.sha256) + ("}"@ + y);
    let a4 = ",\"sha256\":"@ + a5;
    let b4 = ",\"sha256\":"@ + b5;
    let a3 = ",\"modifiedNs\":"@ + (decimal(a.modified_ns as nat) + a4);
    let b3 = ",\"modifiedNs\":"@ + (decimal(b.modified_ns as nat) + b4);
    let a2 = decimal(a.bytes as nat) + a3;
    let b2 = decimal(b.bytes as nat) + b3;
    let a1 = json_string(a.path) + (",\"bytes\":"@ + a2);
    let b1 = json_string(b.path) + (",\"bytes\":"@ + b2);
    assert(entry_json(a) + x == "{\"path\":"@ + a1);
    assert(entry_json(b) + y == "{\"path\":"@ + b1);
    lemma_cancel("{\"path\":"@, a1, b1);
    lemma_json_string_decodes(a.path, b.path, ",\"bytes\":"@ + a2, ",\"bytes\":"@ + b2);
    lemma_cancel(",\"bytes\":"@, a2, b2);
    assert(a3[0] == ',' && b3[0] == ',');
    lemma_decimal_decodes(a.bytes as nat, b.bytes as nat, a3, b3);
    lemma_cancel(
        ",\"modifiedNs\":"@,
        decimal(a.modified_ns as nat) + a4,
        decimal(b.modified_ns as nat) + b4,
    );
    assert(a4[0] == ',' && b4[0] == ',');
    lemma_decimal_decodes(a.modified_ns as nat, b.modified_ns as nat, a4, b4);
    lemma_cancel(",\"sha256\":"@, a5, b5);
    lemma_json_string_decodes(a.sha256, b.sha256, "}"@ + x, "}"@ + y);
    lemma_cancel("}"@, x, y);
}

proof fn lemma_more_entries_decode(a: Seq<CachedFileEntryView>, b: Seq<CachedFileEntryView>)
    requires
        more_entries_json(a) + seq![']'] == more_entries_json(b) + seq![']'],
    ensures
        a == b,
    decreases a.len(),
{
    let left = more_entries_json(a) + seq![']'];
    let right = more_entries_json(b) + seq![']'];
    if a.len() > 0 {
        assert(left[0] == ',');
    } else {
        assert(left[0] == ']');
    }
    if b.len() > 0 {
        assert(right[0] == ',');
    } else {
        assert(right[0] == ']');
    }
    if a.len() > 0 && b.len() > 0 {
        let x = more_entries_json(a.drop_first()) + seq![']'];
        let y = more_entries_json(b.drop_first()) + seq![']'];
        assert(left == seq![','] + (entry_json(a[0]) + x));
        assert(right == seq![','] + (entry_json(b[0]) + y));
        lemma_cancel(seq![','], entry_json(a[0]) + x, entry_json(b[0]) + y);
        lemma_entry_decodes(a[0], b[0], x, y);
        lemma_more_entries_decode(a.drop_first(), b.drop_first());
        assert(a == seq![a[0]] + a.drop_first());
        assert(b == seq![b[0]] + b.drop_first());
    } else {
        assert(a == b);
    }
}

proof fn lemma_manifest_decodes(
    a: Seq<CachedFileEntryView>,
    b: Seq<CachedFileEntryView>,
)
    requires
        manifest_json(a) == manifest_json(b),
    ensures
        a == b,
{
    let left = manifest_json(a);
    let right = manifest_json(b);
    reveal_strlit("{\"path\":");
    if a.len() > 0 {
        assert(left[1] == entry_json(a[0])[0]);
        assert(left[1] == '{');
    }
    if b.len() > 0 {
        assert(right[1] == entry_json(b[0])[0]);
        assert(right[1] == '{');
    }
    if a.len() > 0 && b.len() > 0 {
        let x = more_entries_json(a.drop_first()) + seq![']'];
        let y = more_entries_json(b.drop_first()) + seq![']'];
        lemma_cancel(seq!['['], entry_json(a[0]) + x, entry_json(b[0]) + y);
        lemma_entry_decodes(a[0], b[0], x, y);
        lemma_more_entries_decode(a.drop_first(), b.drop_first());
        assert(a == seq![a[0]] + a.drop_first());
        assert(b == seq![b[0]] + b.drop_first());
    } else {
        assert(a == b);
    }
}

/// The fingerprint changes with the files: the bytes that are digested determine every path,
/// size, modification time and digest, and their order, so that different lists of files are
/// digested from different bytes.
pub proof fn law_fingerprint_covers_every_file(
    a: Seq<CachedFileEntryView>,
    b: Seq<CachedFileEntryView>,
)
    requires
        encode_utf8(manifest_json(a)) == encode_utf8(manifest_json(b)),
    ensures
        a == b,
{
    vstd::utf8::encode_utf8_decode_utf8(manifest_json(a));
    vstd::utf8::encode_utf8_decode_utf8(manifest_json(b));
    lemma_manifest_decodes(a, b);
}

/// Different saves have different fingerprints, however many files they have: two lists of files
/// with one fingerprint are the same list, or show two different texts of bytes with one SHA-256
/// digest.
pub proof fn law_fingerprint_tells_saves_apart(
    a: Seq<CachedFileEntryView>,
    b: Seq<CachedFileEntryView>,
)
    requires
        fingerprint_of(a) == fingerprint_of(b),
    ensures
        a == b || exists|x: Seq<u8>, y: Seq<u8>|
            x != y && #[trigger] sha256_digest(x) == #[trigger] sha256_digest(y),
{
    let x = encode_utf8(manifest_json(a));
    let y = encode_utf8(manifest_json(b));
    if x == y {
        law_fingerprint_covers_every_file(a, b);
    } else {
        law_text_digest_covers_the_text(manifest_json(a), x);
        law_text_digest_covers_the_text(manifest_json(b), y);
        let p = sha256_digest(x);
        let q = sha256_digest(y);
        assert forall|i: int| 0 <= i < p.len() implies p[i] == q[i] by {
            let shared = fingerprint_of(a);
            assert(hex_value(shared[2 * i]) * 16 + hex_value(shared[2 * i + 1]) == p[i]);
            assert(hex_value(shared[2 * i]) * 16 + hex_value(shared[2 * i + 1]) == q[i]);
        }
        assert(p =~= q);
    }
}

/// The same files always have the same fingerprint: it is the digest of their list in JSON, in which
/// each file stands in its place with its path, size, time and digest.
pub proof fn law_fingerprint_is_of_the_list(
    entries: Seq<CachedFileEntryView>,
    more: CachedFileEntryView,
)
    ensures
        fingerprint_of(entries) == text_digest(manifest_json(entries)),
        manifest_json(Seq::empty()) == seq!['[', ']'],
        ({
            let object = "{\"path\":"@ + json_string(more.path) + ",\"bytes\":"@ + decimal(
                more.bytes as nat,
            ) + ",\"modifiedNs\":"@ + decimal(more.modified_ns as nat) + ",\"sha256\":"@
                + json_string(more.sha256) + "}"@;
            let listed = manifest_json(entries.push(more));
            if entries.len() == 0 {
                listed == seq!['['] + object + seq![']']
            } else {
                listed == manifest_json(entries).drop_last() + seq![','] + object + seq![']']
            }
        }),
{
    let object = "{\"path\":"@ + json_string(more.path) + ",\"bytes\":"@ + decimal(
        more.bytes as nat,
    ) + ",\"modifiedNs\":"@ + decimal(more.modified_ns as nat) + ",\"sha256\":"@ + json_string(
        more.sha256,
    ) + "}"@;
    assert(entry_json(more) =~= object);
    let all = entries.push(more);
    if entries.len() == 0 {
        assert(all.drop_first() =~= Seq::<CachedFileEntryView>::empty());
        assert(manifest_json(all) =~= seq!['['] + object + seq![']']);
    } else {
        let rest = entries.drop_first();
        assert(all.drop_first() =~= rest.push(more));
        lemma_more_entries_push(rest, more);
        assert(manifest_json(all) =~= manifest_json(entries).drop_last() + seq![','] + object
            + seq![']']);
    }
}

proof fn lemma_more_entries_push(entries: Seq<CachedFileEntryView>, more: CachedFileEntryView)
    ensures
        more_entries_json(entries.push(more)) == more_entries_json(entries) + seq![',']
            + entry_json(more),
    decreases entries.len(),
{
    let all = entries.push(more);
    if entries.len() == 0 {
        assert(all.drop_first() =~= Seq::<CachedFileEntryView>::empty());
        assert(more_entries_json(Seq::empty()) =~= Seq::<char>::empty());
        assert(more_entries_json(all) =~= seq![','] + entry_json(more));
        assert(more_entries_json(entries) + seq![','] + entry_json(more) =~= seq![',']
            + entry_json(more));
    } else {
        let rest = entries.drop_first();
        lemma_more_entries_push(rest, more);
        assert(all.drop_first() =~= rest.push(more));
        assert(more_entries_json(all) =~= more_entries_json(entries) + seq![','] + entry_json(more));
    }
}

}
