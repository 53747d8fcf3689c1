use vstd::prelude::*;
use base64::Engine;
use vstd::string::StringExecFns;

verus! {

/// The lower-case form of a string.
pub uninterp spec fn lower_of(s: Seq<char>) -> Seq<char>;

/// Relies on str::to_lowercase: the result depends on the characters alone.
#[verifier::external_body]
fn lowercase(s: &str) -> (r: String)
    ensures
        r@ == lower_of(s@),
{
    s.to_lowercase()
}

/// The 64 characters of the standard base64 alphabet, by value.
pub open spec fn base64_alphabet() -> Seq<char> {
    "ABCDEFGHIJKLMNOPQRSTUVWXYZabcdefghijklmnopqrstuvwxyz0123456789+/"@
}

/// The character for a six-bit value.
pub open spec fn sextet(v: int) -> char {
    base64_alphabet()[v]
}

/// The standard, padded base64 text of a byte string: every three bytes
/// become four characters of six bits each, and a last group of one or two
/// bytes is filled with zero bits and padded with `=` to four characters.
pub open spec fn base64_of(data: Seq<u8>) -> Seq<char>
    decreases data.len(),
{
    if data.len() == 0 {
        seq![]
    } else if data.len() == 1 {
        let a = data[0] as int;
        seq![sextet(a / 4), sextet((a % 4) * 16), '=', '=']
    } else if data.len() == 2 {
        let a = data[0] as int;
        let b = data[1] as int;
        seq![sextet(a / 4), sextet((a % 4) * 16 + b / 16), sextet((b % 16) * 4), '=']
    } else {
        let a = data[0] as int;
        let b = data[1] as int;
        let c = data[2] as int;
        seq![sextet(a / 4), sextet((a % 4) * 16 + b / 16), sextet((b % 16) * 4 + c / 64), sextet(c % 64)]
            + base64_of(data.subrange(3, data.len() as int))
    }
}

/// Relies on base64's STANDARD engine `encode`: the padded base64 text of
/// the bytes.
#[verifier::external_body]
fn encode_base64(data: &Vec<u8>) -> (r: String)
    ensures
        r@ == base64_of(data@),
{
    base64::engine::general_purpose::STANDARD.encode(data)
}

/// The MIME type for a lower-case file extension.
pub open spec fn mime_of(ext: Seq<char>) -> Seq<char> {
    if ext == "png"@ {
        "image/png"@
    } else if ext == "jpg"@ || ext == "jpeg"@ {
        "image/jpeg"@
    } else if ext == "gif"@ {
        "image/gif"@
    } else if ext == "webp"@ {
        "image/webp"@
    } else {
        "application/octet-stream"@
    }
}

/// The MIME type for an extension that is already lower case.
pub fn mime_for_lowercase(ext: &String) -> (r: &'static str)
    ensures
        r@ == mime_of(ext@),
{
    proof {
        reveal_strlit("png");
        reveal_strlit("jpg");
        reveal_strlit("jpeg");
        reveal_strlit("gif");
        reveal_strlit("webp");
    }
    if *ext == "png".to_owned() {
        "image/png"
    } else if *ext == "jpg".to_owned() || *ext == "jpeg".to_owned() {
        "image/jpeg"
    } else if *ext == "gif".to_owned() {
        "image/gif"
    } else if *ext == "webp".to_owned() {
        "image/webp"
    } else {
        "application/octet-stream"
    }
}

/// The MIME type for a file extension in any case.
pub fn mime_for_extension(ext: &str) -> (r: &'static str)
    ensures
        r@ == mime_of(lower_of(ext@)),
{
    let lower = lowercase(ext);
    mime_for_lowercase(&lower)
}

/// A `data:` URI holding a file's bytes in base64, its MIME type taken from
/// the file's extension.
pub fn file_data_uri(ext: &str, data: &Vec<u8>) -> (r: String)
    ensures
        r@ == "data:"@ + mime_of(lower_of(ext@)) + ";base64,"@ + base64_of(data@),
{
    let mime = mime_for_extension(ext);
    let encoded = encode_base64(data);
    let mut uri = String::from_str("data:");
    uri.append(mime);
    uri.append(";base64,");
    uri.append(encoded.as_str());
    proof {
        reveal_strlit("data:");
        reveal_strlit(";base64,");
    }
    assert(uri@ =~= "data:"@ + mime_of(lower_of(ext@)) + ";base64,"@ + base64_of(data@));
    uri
}

} // verus!
