use vstd::prelude::*;
use vstd::utf8::{decode_utf8, encode_utf8, valid_utf8};

use base64::Engine;

use crate::text::{chars_of, find_char, has_prefix, piece_end, starts_with_chars, substring};

verus! {

/// The padded standard Base64 text of `bytes`.
pub uninterp spec fn base64_of(bytes: Seq<u8>) -> Seq<char>;

/// The bytes that the Base64 text `text` stands for in the padded standard
/// alphabet, or `None` where it is not such a text.
pub uninterp spec fn base64_decoded(text: Seq<u8>) -> Option<Seq<u8>>;

/// Relies on base64's `STANDARD.encode`, which `base64::encode` calls: the
/// padded standard Base64 text of the bytes.
#[verifier::external_body]
fn standard_encode(bytes: &[u8]) -> (r: String)
    ensures
        r@ == base64_of(bytes@),
{
    base64::engine::general_purpose::STANDARD.encode(bytes)
}

/// Relies on base64's `STANDARD.decode`, which `base64::decode` calls: the
/// decoded bytes, or an error (dropped here) where the text is not padded
/// standard Base64.
#[verifier::external_body]
fn standard_decode(text: &[u8]) -> (r: Option<Vec<u8>>)
    ensures
        match r {
            Some(v) => base64_decoded(text@) == Some(v@),
            None => base64_decoded(text@) is None,
        },
{
    base64::engine::general_purpose::STANDARD.decode(text).ok()
}

/// Relies on `String::from_utf8`: it succeeds exactly on valid UTF-8, with
/// the characters that the bytes encode.
#[verifier::external_body]
fn utf8_string(bytes: Vec<u8>) -> (r: Option<String>)
    ensures
        match r {
            Some(s) => valid_utf8(bytes@) && s@ == decode_utf8(bytes@),
            None => !valid_utf8(bytes@),
        },
{
    String::from_utf8(bytes).ok()
}

/// The error of a Base64 text that does not decode.
pub open spec fn bad_base64_message() -> Seq<char> {
    "解码失败：无效的Base64格式"@
}

/// The error of decoded bytes that are not UTF-8.
pub open spec fn bad_utf8_message() -> Seq<char> {
    "解码失败：无效的UTF-8序列"@
}

/// The Base64 text of the UTF-8 bytes of `text`.
pub fn encode_base64_text(text: String) -> (r: Result<String, String>)
    ensures
        r is Ok,
        r->Ok_0@ == base64_of(encode_utf8(text@)),
{
    Ok(standard_encode(text.as_str().as_bytes()))
}

/// The text whose UTF-8 bytes the Base64 text `encoded` stands for.
pub fn decode_base64_text(encoded: String) -> (r: Result<String, String>)
    ensures
        match base64_decoded(encode_utf8(encoded@)) {
            None => r is Err && r->Err_0@ == bad_base64_message(),
            Some(b) => if valid_utf8(b) {
                r is Ok && r->Ok_0@ == decode_utf8(b)
            } else {
                r is Err && r->Err_0@ == bad_utf8_message()
            },
        },
{
    match standard_decode(encoded.as_str().as_bytes()) {
        Some(bytes) => match utf8_string(bytes) {
            Some(s) => Ok(s),
            None => Err(String::from_str("解码失败：无效的UTF-8序列")),
        },
        None => Err(String::from_str("解码失败：无效的Base64格式")),
    }
}

/// The first comma-separated piece of `s`.
pub open spec fn first_piece(s: Seq<char>) -> Seq<char> {
    s.subrange(0, piece_end(s, 0, ','))
}

/// The second comma-separated piece of `s`, where `s` holds a comma.
pub open spec fn second_piece(s: Seq<char>) -> Option<Seq<char>> {
    let i = piece_end(s, 0, ',');
    if i < s.len() {
        Some(s.subrange(i + 1, piece_end(s, i + 1, ',')))
    } else {
        None
    }
}

/// `s` with every occurrence of `pat`, taken from the left without overlap,
/// removed.
pub open spec fn remove_all(s: Seq<char>, pat: Seq<char>) -> Seq<char>
    decreases s.len(),
{
    if s.len() == 0 || pat.len() == 0 {
        s
    } else if has_prefix(s, pat) {
        remove_all(s.skip(pat.len() as int), pat)
    } else {
        seq![s[0]] + remove_all(s.skip(1), pat)
    }
}

/// A data URL of an image whose payload decodes as Base64.
pub open spec fn valid_image_data(s: Seq<char>) -> bool {
    has_prefix(s, "data:image/"@) && match second_piece(s) {
        Some(p) => base64_decoded(encode_utf8(p)) is Some,
        None => false,
    }
}

/// The type and the decoded size of an image in a data URL.
pub struct ImageInfo {
    pub mime_type: String,
    pub size: usize,
}

/// The error of a text that is not an image data URL.
pub open spec fn not_image_message() -> Seq<char> {
    "无效的图片数据格式"@
}

/// The error of a data URL without a payload.
pub open spec fn no_payload_message() -> Seq<char> {
    "无效的Base64数据格式"@
}

/// The error of a payload that does not decode.
pub open spec fn bad_payload_message() -> Seq<char> {
    "无法解码图片数据"@
}

fn pattern_at(cs: &Vec<char>, i: usize, pat: &Vec<char>) -> (r: bool)
    requires
        i <= cs@.len(),
    ensures
        r == has_prefix(cs@.skip(i as int), pat@),
{
    if pat.len() > cs.len() - i {
        return false;
    }
    let total = cs.len();
    let mut k: usize = 0;
    while k < pat.len()
        invariant
            total == cs@.len(),
            i + pat@.len() <= cs@.len(),
            k <= pat@.len(),
            forall|j: int| 0 <= j < k ==> cs@[i + j] == pat@[j],
        decreases pat@.len() - k,
    {
        if cs[i + k] != pat[k] {
            assert(cs@.skip(i as int).subrange(0, pat@.len() as int)[k as int] != pat@[k as int]);
            return false;
        }
        k = k + 1;
    }
    assert(cs@.skip(i as int).subrange(0, pat@.len() as int) =~= pat@);
    true
}

/// `s` with every occurrence of `pat` removed, as `s.replace(pat, "")` gives it.
pub fn remove_text(s: &str, pat: &str) -> (r: String)
    requires
        pat@.len() > 0,
    ensures
        r@ == remove_all(s@, pat@),
{
    let cs = chars_of(s);
    let ps = chars_of(pat);
    let n = cs.len();
    let mut out = String::new();
    let mut seg: usize = 0;
    let mut i: usize = 0;
    assert(s@.skip(0) =~= s@);
    assert(out@ + s@.subrange(0, 0) =~= Seq::<char>::empty());
    while i < n
        invariant
            cs@ == s@,
            ps@ == pat@,
            pat@.len() > 0,
            n == s@.len(),
            seg <= i <= n,
            out@ + s@.subrange(seg as int, i as int) + remove_all(s@.skip(i as int), pat@)
                == remove_all(s@, pat@),
        decreases n - i,
    {
        let ghost rest = s@.skip(i as int);
        if pattern_at(&cs, i, &ps) {
            let m = ps.len();
            assert(rest.skip(m as int) =~= s@.skip(i + m));
            out.append(s.substring_char(seg, i));
            seg = i + m;
            i = i + m;
            assert(s@.subrange(seg as int, i as int) =~= Seq::<char>::empty());
            assert(out@ + s@.subrange(seg as int, i as int) =~= out@);
        } else {
            assert(rest.skip(1) =~= s@.skip(i + 1));
            assert(remove_all(rest, pat@) == seq![s@[i as int]] + remove_all(s@.skip(i + 1), pat@));
            let ghost before = out@;
            let ghost piece = s@.subrange(seg as int, i as int);
            assert(s@.subrange(seg as int, i + 1) =~= piece + seq![s@[i as int]]);
            assert(before + piece + (seq![s@[i as int]] + remove_all(s@.skip(i + 1), pat@))
                =~= before + s@.subrange(seg as int, i + 1) + remove_all(s@.skip(i + 1), pat@));
            i = i + 1;
        }
    }
    assert(s@.skip(n as int) =~= Seq::<char>::empty());
    out.append(s.substring_char(seg, n));
    assert(out@ =~= remove_all(s@, pat@));
    out
}

/// Whether `data` is an image data URL whose payload (the piece after its
/// first comma, up to the next) decodes as Base64.
pub fn validate_base64_image(data: String) -> (r: Result<bool, String>)
    ensures
        r == Ok::<bool, String>(valid_image_data(data@)),
{
    let cs = chars_of(data.as_str());
    let prefix = chars_of("data:image/");
    if !starts_with_chars(&cs, &prefix) {
        return Ok(false);
    }
    let i = find_char(&cs, 0, ',');
    if i >= cs.len() {
        return Ok(false);
    }
    let j = find_char(&cs, i + 1, ',');
    let payload = substring(data.as_str(), i + 1, j);
    match standard_decode(payload.as_str().as_bytes()) {
        Some(_) => Ok(true),
        None => Ok(false),
    }
}

/// The type of the image in the data URL `data` (its first comma-separated
/// piece less every `data:` and then every `;base64`) and the number of bytes
/// of its decoded payload.
pub fn image_info(data: &str) -> (r: Result<ImageInfo, String>)
    ensures
        !has_prefix(data@, "data:image/"@) ==> r is Err && r->Err_0@ == not_image_message(),
        has_prefix(data@, "data:image/"@) ==> match second_piece(data@) {
            None => r is Err && r->Err_0@ == no_payload_message(),
            Some(p) => match base64_decoded(encode_utf8(p)) {
                None => r is Err && r->Err_0@ == bad_payload_message(),
                Some(b) => r is Ok && r->Ok_0.size == b.len() && r->Ok_0.mime_type@ == remove_all(
                    remove_all(first_piece(data@), "data:"@),
                    ";base64"@,
                ),
            },
        },
{
    let cs = chars_of(data);
    let prefix = chars_of("data:image/");
    if !starts_with_chars(&cs, &prefix) {
        return Err(String::from_str("无效的图片数据格式"));
    }
    let i = find_char(&cs, 0, ',');
    let head = substring(data, 0, i);
    proof {
        reveal_strlit("data:");
        reveal_strlit(";base64");
    }
    let no_scheme = remove_text(head.as_str(), "data:");
    let mime_type = remove_text(no_scheme.as_str(), ";base64");
    if i >= cs.len() {
        return Err(String::from_str("无效的Base64数据格式"));
    }
    let j = find_char(&cs, i + 1, ',');
    let payload = substring(data, i + 1, j);
    match standard_decode(payload.as_str().as_bytes()) {
        Some(bytes) => Ok(ImageInfo { mime_type, size: bytes.len() }),
        None => Err(String::from_str("无法解码图片数据")),
    }
}

} // verus!
