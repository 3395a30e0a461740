//! SHA-256 digests in lower-case hexadecimal, of texts, of bytes in memory and of files read
//! piece by piece.

use crate::messages::{failed, failed_text};
use sha2::Digest;
use vstd::prelude::*;
use vstd::string::StringSliceAdditionalSpecFns;
use vstd::utf8::encode_utf8;

verus! {

/// A SHA-256 computation under way.
#[verifier::external_body]
pub struct Sha256State {
    inner: sha2::Sha256,
}

/// The bytes that a computation has been given so far, in order.
pub uninterp spec fn absorbed_bytes(state: Sha256State) -> Seq<u8>;

/// The SHA-256 digest of `data`.
pub uninterp spec fn sha256_digest(data: Seq<u8>) -> Seq<u8>;

/// `sha2::Sha256::new` starts a computation that has been given nothing.
#[verifier::external_body]
fn new_state() -> (state: Sha256State)
    ensures
        absorbed_bytes(state) == Seq::<u8>::empty(),
{
    Sha256State { inner: sha2::Sha256::new() }
}

/// `sha2::Digest::update` gives the computation the bytes of `data`, behind those that it was
/// given before.
#[verifier::external_body]
fn absorb(state: &mut Sha256State, data: &[u8])
    ensures
        absorbed_bytes(*final(state)) == absorbed_bytes(*old(state)) + data@,
{
    state.inner.update(data);
}

/// How many bytes, in pieces, a computation takes at most: their bits are counted with a 64-bit
/// number.
pub const MAX_DIGEST_BYTES: u64 = 2305843009213693951;

/// `sha2::Digest::finalize` returns the digest, 32 bytes long, of all bytes that the computation
/// was given; in how many pieces it was given them makes no difference.
#[verifier::external_body]
fn finish(state: Sha256State) -> (digest: Vec<u8>)
    requires
        absorbed_bytes(state).len() <= MAX_DIGEST_BYTES,
    ensures
        digest@ == sha256_digest(absorbed_bytes(state)),
        digest@.len() == 32,
{
    state.inner.finalize().to_vec()
}

/// `sha2::Digest::digest` returns the same digest for bytes that are all in memory, of which no
/// machine holds as many as a computation cannot take.
#[verifier::external_body]
fn digest_of(data: &[u8]) -> (digest: Vec<u8>)
    ensures
        digest@ == sha256_digest(data@),
        digest@.len() == 32,
{
    sha2::Sha256::digest(data).to_vec()
}

/// The lower-case hexadecimal digit `d`.
pub open spec fn hex_digit(d: nat) -> char {
    if d < 10 {
        (d + 48) as u8 as char
    } else {
        (d + 87) as u8 as char
    }
}

/// Two lower-case hexadecimal digits for each byte.
pub open spec fn hex(bytes: Seq<u8>) -> Seq<char>
    decreases bytes.len(),
{
    if bytes.len() == 0 {
        Seq::empty()
    } else {
        hex(bytes.drop_last()).push(hex_digit((bytes.last() / 16) as nat)).push(
            hex_digit((bytes.last() % 16) as nat),
        )
    }
}

/// The digest of `data` as text.
pub open spec fn sha256_hex(data: Seq<u8>) -> Seq<char> {
    hex(sha256_digest(data))
}

/// The digest of the UTF-8 form of a text, as text.
pub open spec fn text_digest(value: Seq<char>) -> Seq<char> {
    sha256_hex(encode_utf8(value))
}

/// Whether `c` is a lower-case hexadecimal digit.
pub open spec fn is_hex_char(c: char) -> bool {
    '0' <= c <= '9' || 'a' <= c <= 'f'
}

/// Whether `s` has the form of a digest: 64 lower-case hexadecimal digits.
pub open spec fn is_digest_text(s: Seq<char>) -> bool {
    s.len() == 64 && forall|i: int| 0 <= i < s.len() ==> is_hex_char(#[trigger] s[i])
}

proof fn lemma_hex_form(bytes: Seq<u8>)
    ensures
        hex(bytes).len() == 2 * bytes.len(),
        forall|i: int| 0 <= i < hex(bytes).len() ==> is_hex_char(#[trigger] hex(bytes)[i]),
    decreases bytes.len(),
{
    if bytes.len() > 0 {
        lemma_hex_form(bytes.drop_last());
        let high = hex_digit((bytes.last() / 16) as nat);
        let low = hex_digit((bytes.last() % 16) as nat);
        assert(is_hex_char(high) && is_hex_char(low));
        let head = hex(bytes.drop_last());
        assert forall|i: int| 0 <= i < hex(bytes).len() implies is_hex_char(
            #[trigger] hex(bytes)[i],
        ) by {
            if i < head.len() {
                assert(hex(bytes)[i] == head[i]);
            }
        }
    }
}

fn push_hex_digit(s: &mut String, d: u8)
    requires
        d < 16,
    ensures
        final(s)@ == old(s)@.push(hex_digit(d as nat)),
{
    if d < 10 {
        s.push((d + 48) as char);
    } else {
        s.push((d + 87) as char);
    }
}

fn to_hex(bytes: &Vec<u8>) -> (s: String)
    ensures
        s@ == hex(bytes@),
        bytes@.len() == 32 ==> is_digest_text(s@),
{
    let mut s = String::new();
    let mut i: usize = 0;
    while i < bytes.len()
        invariant
            i <= bytes@.len(),
            s@ == hex(bytes@.take(i as int)),
        decreases bytes@.len() - i,
    {
        push_hex_digit(&mut s, bytes[i] / 16);
        push_hex_digit(&mut s, bytes[i] % 16);
        assert(bytes@.take(i + 1).drop_last() == bytes@.take(i as int));
        i = i + 1;
    }
    assert(bytes@.take(bytes@.len() as int) == bytes@);
    proof {
        lemma_hex_form(bytes@);
    }
    s
}

/// The digest of bytes in memory.
pub fn sha256_bytes(data: &[u8]) -> (digest: String)
    ensures
        digest@ == sha256_hex(data@),
        is_digest_text(digest@),
{
    to_hex(&digest_of(data))
}

/// The digest of a text.
pub fn sha256_text(value: &str) -> (digest: String)
    ensures
        digest@ == text_digest(value@),
        is_digest_text(digest@),
{
    sha256_bytes(value.as_bytes())
}

/// The digest of a file that is being read piece by piece.
pub struct FileDigest {
    state: Sha256State,
}

impl View for FileDigest {
    type V = Seq<u8>;

    /// What has been read of the file.
    closed spec fn view(&self) -> Seq<u8> {
        absorbed_bytes(self.state)
    }
}

/// What to do after a read of the file.
pub enum DigestStep {
    /// Read on.
    ReadMore(FileDigest),
    /// The file has been read to its end, and this is its digest.
    Done(String),
    /// The file could not be read.
    Failed(String),
}

/// The message for a file that could not be opened.
pub open spec fn open_failed(error: Seq<char>) -> Seq<char> {
    failed_text("打开文件计算摘要失败"@, error)
}

/// The message for a file that could not be read.
pub open spec fn read_failed(error: Seq<char>) -> Seq<char> {
    failed_text("读取文件计算摘要失败"@, error)
}

impl FileDigest {
    /// Starts on a file, given how opening it went.
    pub fn begin(opened: Result<(), String>) -> (step: DigestStep)
        ensures
            opened is Ok ==> (step matches DigestStep::ReadMore(d) && d@ == Seq::<u8>::empty()),
            opened matches Err(e) ==> (step matches DigestStep::Failed(m) && m@ == open_failed(e@)),
    {
        match opened {
            Ok(_) => DigestStep::ReadMore(FileDigest { state: new_state() }),
            Err(e) => DigestStep::Failed(failed("打开文件计算摘要失败", e.as_str())),
        }
    }

    /// Takes what a read returned. An empty read is the end of the file.
    pub fn on_read(self, read: Result<&[u8], String>) -> (step: DigestStep)
        requires
            read matches Ok(piece) ==> self@.len() + piece@.len() <= MAX_DIGEST_BYTES,
        ensures
            match read {
                Ok(piece) => if piece@.len() == 0 {
                    step matches DigestStep::Done(h) && h@ == sha256_hex(self@)
                        && is_digest_text(h@)
                } else {
                    step matches DigestStep::ReadMore(d) && d@ == self@ + piece@
                },
                Err(e) => step matches DigestStep::Failed(m) && m@ == read_failed(e@),
            },
    {
        match read {
            Ok(piece) => {
                if piece.len() == 0 {
                    DigestStep::Done(to_hex(&finish(self.state)))
                } else {
                    let mut state = self.state;
                    absorb(&mut state, piece);
                    DigestStep::ReadMore(FileDigest { state })
                }
            },
            Err(e) => DigestStep::Failed(failed("读取文件计算摘要失败", e.as_str())),
        }
    }
}

/// The text whose digest names the cache directory of a save.
pub open spec fn cache_key(save_mode: Seq<char>, save_name: Seq<char>) -> Seq<char> {
    save_mode + seq!['\0'] + save_name
}

/// The name of the directory that holds the cached archive of a save.
pub fn cache_identity(save_mode: &str, save_name: &str) -> (identity: String)
    ensures
        identity@ == text_digest(cache_key(save_mode@, save_name@)),
        is_digest_text(identity@),
{
    let mut key = save_mode.to_owned();
    key.push('\0');
    key.append(save_name);
    assert(key@ == cache_key(save_mode@, save_name@));
    sha256_text(key.as_str())
}

/// Saves that differ in mode or name have different cache keys, so that only an exact match
/// shares a cache directory, unless a mode holds the NUL character, which no file name can.
pub proof fn law_cache_keys_are_distinct(
    mode_a: Seq<char>,
    name_a: Seq<char>,
    mode_b: Seq<char>,
    name_b: Seq<char>,
)
    requires
        !mode_a.contains('\0'),
        !mode_b.contains('\0'),
        cache_key(mode_a, name_a) == cache_key(mode_b, name_b),
    ensures
        mode_a == mode_b,
        name_a == name_b,
{
    let a = cache_key(mode_a, name_a);
    let b = cache_key(mode_b, name_b);
    if mode_a.len() < mode_b.len() {
        assert(a[mode_a.len() as int] == '\0');
        assert(b[mode_a.len() as int] == mode_b[mode_a.len() as int]);
        assert(mode_b.contains('\0'));
    } else if mode_b.len() < mode_a.len() {
        assert(b[mode_b.len() as int] == '\0');
        assert(a[mode_b.len() as int] == mode_a[mode_b.len() as int]);
        assert(mode_a.contains('\0'));
    } else {
        assert(mode_a == a.take(mode_a.len() as int));
        assert(mode_b == b.take(mode_b.len() as int));
        assert(name_a == a.skip(mode_a.len() as int + 1));
        assert(name_b == b.skip(mode_b.len() as int + 1));
    }
}

/// The number that a lower-case hexadecimal digit stands for.
pub open spec fn hex_value(c: char) -> int {
    if 48 <= c as int <= 57 {
        c as int - 48
    } else {
        c as int - 87
    }
}

proof fn lemma_hex_tells_every_byte(bytes: Seq<u8>, i: int)
    requires
        0 <= i < bytes.len(),
    ensures
        hex(bytes).len() == 2 * bytes.len(),
        hex_value(hex(bytes)[2 * i]) * 16 + hex_value(hex(bytes)[2 * i + 1]) == bytes[i],
    decreases bytes.len(),
{
    lemma_hex_form(bytes);
    let head = bytes.drop_last();
    lemma_hex_form(head);
    if i == head.len() {
        let b = bytes.last();
        let high = hex_digit((b / 16) as nat);
        let low = hex_digit((b % 16) as nat);
        assert(hex(bytes)[2 * i] == high);
        assert(hex(bytes)[2 * i + 1] == low);
        assert(hex_value(high) == b / 16);
        assert(hex_value(low) == b % 16);
    } else {
        lemma_hex_tells_every_byte(head, i);
        assert(hex(bytes)[2 * i] == hex(head)[2 * i]);
        assert(hex(bytes)[2 * i + 1] == hex(head)[2 * i + 1]);
        assert(head[i] == bytes[i]);
    }
}

/// The text of a digest tells every byte of the digest of all the data: two lower-case hexadecimal
/// digits for each, in order.
pub proof fn law_digest_text_tells_the_digest(data: Seq<u8>, i: int)
    requires
        0 <= i < sha256_digest(data).len(),
    ensures
        sha256_hex(data).len() == 2 * sha256_digest(data).len(),
        is_hex_char(sha256_hex(data)[2 * i]) && is_hex_char(sha256_hex(data)[2 * i + 1]),
        hex_value(sha256_hex(data)[2 * i]) * 16 + hex_value(sha256_hex(data)[2 * i + 1])
            == sha256_digest(data)[i],
{
    lemma_hex_tells_every_byte(sha256_digest(data), i);
    lemma_hex_form(sha256_digest(data));
}

/// The digest of a text is that of all its bytes in UTF-8: data that is the UTF-8 form of the text
/// has the same digest.
pub proof fn law_text_digest_covers_the_text(value: Seq<char>, data: Seq<u8>)
    requires
        data == encode_utf8(value),
    ensures
        text_digest(value).len() == 2 * sha256_digest(data).len(),
        forall|i: int|
            0 <= i < sha256_digest(data).len() ==> hex_value(#[trigger] text_digest(value)[2 * i])
                * 16 + hex_value(text_digest(value)[2 * i + 1]) == sha256_digest(data)[i],
{
    lemma_hex_form(sha256_digest(data));
    assert forall|i: int| 0 <= i < sha256_digest(data).len() implies hex_value(
        #[trigger] text_digest(value)[2 * i],
    ) * 16 + hex_value(text_digest(value)[2 * i + 1]) == sha256_digest(data)[i] by {
        lemma_hex_tells_every_byte(sha256_digest(data), i);
    }
}

/// The key of a cache is the mode, a NUL character and the name.
pub proof fn law_cache_key_holds_mode_and_name(save_mode: Seq<char>, save_name: Seq<char>)
    ensures
        cache_key(save_mode, save_name).len() == save_mode.len() + 1 + save_name.len(),
        cache_key(save_mode, save_name).take(save_mode.len() as int) == save_mode,
        cache_key(save_mode, save_name)[save_mode.len() as int] == '\0',
        cache_key(save_mode, save_name).skip(save_mode.len() as int + 1) == save_name,
{
    let key = cache_key(save_mode, save_name);
    assert(key.take(save_mode.len() as int) =~= save_mode);
    assert(key.skip(save_mode.len() as int + 1) =~= save_name);
}

/// A file of which no digest can be had is told with the reason.
pub proof fn law_unread_file_is_told(error: Seq<char>)
    ensures
        open_failed(error) == "打开文件计算摘要失败"@ + ": "@ + error,
        read_failed(error) == "读取文件计算摘要失败"@ + ": "@ + error,
{
}

}
