//! `data:` URIs that embed a model's buffers in the model file.

use vstd::prelude::*;

verus! {

/// The error the base64 decoder reports.
#[verifier::external_type_specification]
#[verifier::external_body]
pub struct ExDecodeError(base64::DecodeError);

/// What standard base64 decoding makes of `input`: the decoded bytes, or
/// `None` when `input` is not valid base64.
pub uninterp spec fn base64_decoded(input: Seq<u8>) -> Option<Seq<u8>>;

/// `base64::decode` with the standard alphabet: the decoded bytes, or an error
/// when `input` is not valid base64; which error it reports is left unsaid.
#[verifier::external_body]
fn base64_decode(input: &[u8]) -> (r: Result<Vec<u8>, base64::DecodeError>)
    ensures
        match r {
            Ok(v) => base64_decoded(input@) == Some(v@),
            Err(_) => base64_decoded(input@) is None,
        },
{
    base64::decode(input)
}

/// Why the payload of a `data:` URI could not be decoded.
#[derive(PartialEq, Eq, Debug)]
pub enum DataUriError {
    /// The payload is marked base64 but is not valid base64; the error the
    /// base64 decoder reported.
    InvalidBase64(base64::DecodeError),
}

/// The bytes `data:`.
pub open spec fn data_prefix() -> Seq<u8> {
    seq![100u8, 97u8, 116u8, 97u8, 58u8]
}

/// The bytes `;base64`.
pub open spec fn base64_suffix() -> Seq<u8> {
    seq![59u8, 98u8, 97u8, 115u8, 101u8, 54u8, 52u8]
}

/// `j` is the position of the first `d` in `s`.
pub open spec fn first_at(s: Seq<u8>, d: u8, j: int) -> bool {
    &&& 0 <= j < s.len()
    &&& s[j] == d
    &&& forall|k: int| 0 <= k < j ==> s[k] != d
}

/// `s` ends with `;base64`.
pub open spec fn ends_with_base64(s: Seq<u8>) -> bool {
    s.len() >= 7 && s.skip(s.len() - 7) == base64_suffix()
}

/// `uri` starts with `data:` and has a comma after it.
pub open spec fn is_data_uri(uri: Seq<u8>) -> bool {
    uri.len() >= 5 && uri.take(5) == data_prefix() && uri.skip(5).contains(44u8)
}

/// `d` is what `data:<media type>[;base64],<payload>` says: the payload after
/// the first comma, and the media type before it, without `;base64`, which
/// marks a base64 payload.
pub open spec fn parses_as(uri: Seq<u8>, d: DataUri) -> bool {
    exists|j: int|
        #[trigger] first_at(uri.skip(5), 44u8, j) && d.data@ == uri.skip(5).skip(j + 1) && d.base64
            == ends_with_base64(uri.skip(5).take(j)) && d.mime_type@ == if ends_with_base64(
            uri.skip(5).take(j),
        ) {
            uri.skip(5).take(j).take(j - 7)
        } else {
            uri.skip(5).take(j)
        }
}

/// A `data:` URI: its media type, whether the payload is base64, and the payload.
pub struct DataUri {
    pub mime_type: Vec<u8>,
    pub base64: bool,
    pub data: Vec<u8>,
}

/// The bytes of `s` from `a` up to `b`.
fn copy_range(s: &[u8], a: usize, b: usize) -> (r: Vec<u8>)
    requires
        a <= b <= s@.len(),
    ensures
        r@ == s@.subrange(a as int, b as int),
{
    let mut r: Vec<u8> = Vec::new();
    let mut k = a;
    while k < b
        invariant
            a <= k <= b,
            b <= s@.len(),
            r@ == s@.subrange(a as int, k as int),
        decreases b - k,
    {
        r.push(s[k]);
        proof {
            assert(r@ =~= s@.subrange(a as int, k as int + 1));
        }
        k = k + 1;
    }
    r
}

/// Splits `input` at the first `delimiter`: the bytes before it and the bytes
/// after it, or `None` when there is none.
pub fn split_once(input: &[u8], delimiter: u8) -> (r: Option<(Vec<u8>, Vec<u8>)>)
    ensures
        r is None <==> !input@.contains(delimiter),
        r matches Some((a, b)) ==> exists|j: int|
            first_at(input@, delimiter, j) && a@ == input@.take(j) && b@ == input@.skip(j + 1),
{
    let n = input.len();
    let mut j: usize = 0;
    while j < n
        invariant
            n == input@.len(),
            j <= n,
            forall|k: int| 0 <= k < j ==> input@[k] != delimiter,
        decreases n - j,
    {
        if input[j] == delimiter {
            let a = copy_range(input, 0, j);
            let b = copy_range(input, j + 1, n);
            proof {
                assert(first_at(input@, delimiter, j as int));
                assert(a@ =~= input@.take(j as int));
                assert(b@ =~= input@.skip(j as int + 1));
                assert(input@.contains(delimiter));
            }
            return Some((a, b));
        }
        j = j + 1;
    }
    None
}

impl DataUri {
    /// Parses `data:<media type>[;base64],<payload>`: `Err` when the prefix
    /// or the comma is missing.
    pub fn parse(uri: &[u8]) -> (r: Result<DataUri, ()>)
        ensures
            r is Ok <==> is_data_uri(uri@),
            r matches Ok(d) ==> parses_as(uri@, d),
    {
        if uri.len() < 5 || uri[0] != 100u8 || uri[1] != 97u8 || uri[2] != 116u8 || uri[3] != 97u8
            || uri[4] != 58u8 {
            proof {
                if uri@.len() >= 5 && uri@.take(5) == data_prefix() {
                    assert(uri@.take(5)[0] == uri@[0]);
                    assert(uri@.take(5)[1] == uri@[1]);
                    assert(uri@.take(5)[2] == uri@[2]);
                    assert(uri@.take(5)[3] == uri@[3]);
                    assert(uri@.take(5)[4] == uri@[4]);
                }
            }
            return Err(());
        }
        proof {
            assert(uri@.take(5) =~= data_prefix());
        }
        let rest = copy_range(uri, 5, uri.len());
        proof {
            assert(rest@ =~= uri@.skip(5));
        }
        let (mime, data) = match split_once(rest.as_slice(), 44u8) {
            Some(p) => p,
            None => {
                return Err(());
            },
        };
        let m = mime.len();
        let is_b64 = m >= 7 && mime[m - 7] == 59u8 && mime[m - 6] == 98u8 && mime[m - 5] == 97u8
            && mime[m - 4] == 115u8 && mime[m - 3] == 101u8 && mime[m - 2] == 54u8 && mime[m - 1]
            == 52u8;
        proof {
            if is_b64 {
                assert(mime@.skip(m - 7) =~= base64_suffix());
            } else if m >= 7 && mime@.skip(m - 7) == base64_suffix() {
                assert(mime@.skip(m - 7)[0] == mime@[m - 7]);
                assert(mime@.skip(m - 7)[1] == mime@[m - 6]);
                assert(mime@.skip(m - 7)[2] == mime@[m - 5]);
                assert(mime@.skip(m - 7)[3] == mime@[m - 4]);
                assert(mime@.skip(m - 7)[4] == mime@[m - 3]);
                assert(mime@.skip(m - 7)[5] == mime@[m - 2]);
                assert(mime@.skip(m - 7)[6] == mime@[m - 1]);
            }
        }
        let mime_type = if is_b64 {
            copy_range(mime.as_slice(), 0, m - 7)
        } else {
            mime
        };
        proof {
            if is_b64 {
                assert(mime_type@ =~= mime@.take(m - 7));
            }
        }
        Ok(DataUri { mime_type, base64: is_b64, data })
    }

    /// The payload's bytes: base64-decoded when the URI says so, as written otherwise.
    pub fn decode(&self) -> (r: Result<Vec<u8>, DataUriError>)
        ensures
            self.base64 ==> match base64_decoded(self.data@) {
                Some(v) => r == Ok::<Vec<u8>, DataUriError>(r->Ok_0) && r->Ok_0@ == v,
                None => r matches Err(DataUriError::InvalidBase64(_)),
            },
            !self.base64 ==> r is Ok && r->Ok_0@ == self.data@,
    {
        if self.base64 {
            match base64_decode(self.data.as_slice()) {
                Ok(v) => Ok(v),
                Err(e) => Err(DataUriError::InvalidBase64(e)),
            }
        } else {
            Ok(copy_range(self.data.as_slice(), 0, self.data.len()))
        }
    }
}

/// The bytes `application/octet-stream`.
pub open spec fn octet_stream() -> Seq<u8> {
    seq![97u8, 112u8, 112u8, 108u8, 105u8, 99u8, 97u8, 116u8, 105u8, 111u8, 110u8, 47u8, 111u8, 99u8, 116u8, 101u8, 116u8, 45u8, 115u8, 116u8, 114u8, 101u8, 97u8, 109u8]
}

/// The bytes `application/gltf-buffer`.
pub open spec fn gltf_buffer() -> Seq<u8> {
    seq![97u8, 112u8, 112u8, 108u8, 105u8, 99u8, 97u8, 116u8, 105u8, 111u8, 110u8, 47u8, 103u8, 108u8, 116u8, 102u8, 45u8, 98u8, 117u8, 102u8, 102u8, 101u8, 114u8]
}

/// Whether a `data:` URI's media type is one that a model's buffer may have.
pub open spec fn buffer_mime(mime: Seq<u8>) -> bool {
    mime == octet_stream() || mime == gltf_buffer()
}

/// Where a model's buffer comes from, by its (percent-decoded) URI.
pub enum BufferUri {
    /// A `data:` URI with a media type that buffers may have: the payload is the buffer.
    Embedded(DataUri),
    /// A `data:` URI with any other media type: the model cannot be loaded.
    Unsupported,
    /// Not a `data:` URI: a path, relative to the model, of a file to read.
    External,
}

/// `r` is where the buffer of (percent-decoded) URI `uri` comes from: a file
/// unless `uri` is a `data:` URI; embedded when its media type is one that
/// buffers may have; unsupported otherwise.
pub open spec fn classified(uri: Seq<u8>, r: BufferUri) -> bool {
    &&& (r is External <==> !is_data_uri(uri))
    &&& (r matches BufferUri::Embedded(d) ==> parses_as(uri, d) && buffer_mime(d.mime_type@))
    &&& (r is Unsupported ==> exists|d: DataUri| parses_as(uri, d) && !buffer_mime(d.mime_type@))
}

/// Whether `a` holds the bytes `b`.
fn bytes_equal(a: &Vec<u8>, b: &[u8]) -> (r: bool)
    ensures
        r == (a@ == b@),
{
    if a.len() != b.len() {
        return false;
    }
    let n = a.len();
    let mut i: usize = 0;
    while i < n
        invariant
            n == a@.len(),
            n == b@.len(),
            i <= n,
            forall|k: int| 0 <= k < i ==> a@[k] == b@[k],
        decreases n - i,
    {
        if a[i] != b[i] {
            return false;
        }
        i = i + 1;
    }
    assert(a@ =~= b@);
    true
}

/// Classifies the URI of a model's buffer: a `data:` URI whose media type is
/// `application/octet-stream` or `application/gltf-buffer` embeds the buffer,
/// another `data:` URI is unsupported, and anything else names a file.
pub fn classify_buffer_uri(uri: &[u8]) -> (r: BufferUri)
    ensures
        classified(uri@, r),
{
    match DataUri::parse(uri) {
        Ok(d) => {
            let octet: [u8; 24] = [97, 112, 112, 108, 105, 99, 97, 116, 105, 111, 110, 47, 111, 99, 116, 101, 116, 45, 115, 116, 114, 101, 97, 109];
            let gltf: [u8; 23] = [97, 112, 112, 108, 105, 99, 97, 116, 105, 111, 110, 47, 103, 108, 116, 102, 45, 98, 117, 102, 102, 101, 114];
            proof {
                assert(octet@ =~= octet_stream());
                assert(gltf@ =~= gltf_buffer());
            }
            if bytes_equal(&d.mime_type, octet.as_slice()) || bytes_equal(&d.mime_type, gltf.as_slice()) {
                BufferUri::Embedded(d)
            } else {
                BufferUri::Unsupported
            }
        },
        Err(()) => BufferUri::External,
    }
}

/// The value of an ASCII hexadecimal digit, if `b` is one.
pub open spec fn hex_digit(b: u8) -> Option<u8> {
    if 48 <= b <= 57 {
        Some((b - 48) as u8)
    } else if 65 <= b <= 70 {
        Some((b - 55) as u8)
    } else if 97 <= b <= 102 {
        Some((b - 87) as u8)
    } else {
        None
    }
}

/// `s` with each `%` that two hexadecimal digits follow replaced by the byte
/// they spell; every other byte stays.
pub open spec fn percent_decoded(s: Seq<u8>) -> Seq<u8>
    decreases s.len(),
{
    if s.len() == 0 {
        Seq::empty()
    } else if s[0] == 37 && s.len() >= 3 && hex_digit(s[1]) is Some && hex_digit(s[2]) is Some {
        seq![(16 * hex_digit(s[1])->0 + hex_digit(s[2])->0) as u8] + percent_decoded(s.skip(3))
    } else {
        seq![s[0]] + percent_decoded(s.skip(1))
    }
}

/// The bytes of a URI as a model writes it, percent-decoded.
pub open spec fn decoded_uri(uri: Seq<char>) -> Seq<u8> {
    percent_decoded(vstd::utf8::encode_utf8(uri))
}

/// `percent_encoding::percent_decode_str(uri).decode_utf8()`: the
/// percent-decoded bytes of `uri` when they are valid UTF-8, `None` when they
/// are not.
#[verifier::external_body]
fn percent_decode_utf8(uri: &str) -> (r: Option<Vec<u8>>)
    ensures
        match r {
            Some(b) => vstd::utf8::valid_utf8(decoded_uri(uri@)) && b@ == decoded_uri(uri@),
            None => !vstd::utf8::valid_utf8(decoded_uri(uri@)),
        },
{
    percent_encoding::percent_decode_str(uri).decode_utf8().ok().map(|s| s.as_bytes().to_vec())
}

/// Where the buffer whose URI a model writes as `uri` comes from: the URI is
/// percent-decoded, which must give UTF-8, and then classified.
pub fn buffer_uri(uri: &str) -> (r: BufferUri)
    requires
        vstd::utf8::valid_utf8(decoded_uri(uri@)),
    ensures
        classified(decoded_uri(uri@), r),
{
    match percent_decode_utf8(uri) {
        Some(bytes) => classify_buffer_uri(bytes.as_slice()),
        None => BufferUri::External,
    }
}

/// Where the buffer whose URI a model writes as `uri` comes from, or `None`
/// when the percent-decoded URI is not UTF-8 and the model cannot be read.
pub fn try_buffer_uri(uri: &str) -> (r: Option<BufferUri>)
    ensures
        match r {
            Some(b) => vstd::utf8::valid_utf8(decoded_uri(uri@)) && classified(decoded_uri(uri@), b),
            None => !vstd::utf8::valid_utf8(decoded_uri(uri@)),
        },
{
    match percent_decode_utf8(uri) {
        Some(bytes) => Some(classify_buffer_uri(bytes.as_slice())),
        None => None,
    }
}

} // verus!
