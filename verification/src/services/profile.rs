//! Validation of profile fields and preparation of profile images.

use vstd::prelude::*;
use vstd::string::StringExecFns;
use vstd::utf8::encode_utf8;
use crate::codec::{base64_decode, base64_decoded, base64_encode, base64_encoding};
use crate::text::{chars_of, has_prefix, starts_with, string_of, trim, trim_chars, utf8_len_exceeds};

verus! {

broadcast use vstd::string::group_string_axioms;

/// The largest image file that is sent, in bytes.
pub const MAX_IMAGE_FILE_BYTES: usize = 1048576;

/// Service for profile validation and processing.
pub struct ProfileService;

/// A URL is accepted when it starts with `http://` or `https://`.
pub open spec fn valid_url(u: Seq<char>) -> bool {
    has_prefix(u, "http://"@) || has_prefix(u, "https://"@)
}

/// A URL field passes when it is empty or a valid URL.
pub open spec fn url_field_ok(u: Seq<char>) -> bool {
    u.len() == 0 || valid_url(u)
}

/// The profile fields pass validation.
pub open spec fn profile_data_ok(
    bio: Seq<char>,
    url1: Seq<char>,
    url2: Seq<char>,
    url3: Seq<char>,
    location: Seq<char>,
) -> bool {
    &&& encode_utf8(bio).len() <= 500
    &&& url_field_ok(url1)
    &&& url_field_ok(url2)
    &&& url_field_ok(url3)
    &&& encode_utf8(location).len() <= 100
}

/// The message with which validation refuses the fields: the first rule
/// broken, in the order bio, URL 1 to 3, location.
pub open spec fn profile_data_error(
    bio: Seq<char>,
    url1: Seq<char>,
    url2: Seq<char>,
    url3: Seq<char>,
    location: Seq<char>,
) -> Seq<char> {
    if encode_utf8(bio).len() > 500 {
        "Bio must be 500 characters or less"@
    } else if !url_field_ok(url1) {
        "URL1 is not valid"@
    } else if !url_field_ok(url2) {
        "URL2 is not valid"@
    } else if !url_field_ok(url3) {
        "URL3 is not valid"@
    } else {
        "Location must be 100 characters or less"@
    }
}

/// The image text is passed on as it is: a data URL or a web address.
pub open spec fn is_inline_image_ref(t: Seq<char>) -> bool {
    has_prefix(t, "data:"@) || has_prefix(t, "http"@)
}

/// What `file_or_url_to_base64` returns for a field, given the content of
/// the file named by the trimmed field when such a file exists and could be
/// read.
pub open spec fn image_field_value(val: Seq<char>, file: Option<Seq<u8>>) -> Option<Seq<char>> {
    let t = trim(val);
    if t.len() == 0 {
        None
    } else if is_inline_image_ref(t) {
        Some(t)
    } else if file is Some {
        if file->0.len() > 1048576 {
            None
        } else {
            Some("data:image/png;base64,"@ + base64_encoding(file->0))
        }
    } else if base64_decoded(t) is Some {
        Some(t)
    } else {
        None
    }
}

/// The bytes of an optional byte vector.
pub open spec fn opt_bytes(f: Option<Vec<u8>>) -> Option<Seq<u8>> {
    match f {
        Some(v) => Some(v@),
        None => None,
    }
}

impl ProfileService {
    /// Checks the lengths of the bio (at most 500 bytes) and of the
    /// location (at most 100 bytes) and that each non-empty URL is valid.
    pub fn validate_profile_data(
        bio: &str,
        url1: &str,
        url2: &str,
        url3: &str,
        location: &str,
    ) -> (r: Result<(), String>)
        ensures
            r is Ok <==> profile_data_ok(bio@, url1@, url2@, url3@, location@),
            r matches Err(e) ==> e@ == profile_data_error(bio@, url1@, url2@, url3@, location@),
    {
        if utf8_len_exceeds(chars_of(bio).as_slice(), 500) {
            return Err("Bio must be 500 characters or less".to_string());
        }
        if !url1.is_empty() && !Self::is_valid_url(url1) {
            return Err("URL1 is not valid".to_string());
        }
        if !url2.is_empty() && !Self::is_valid_url(url2) {
            return Err("URL2 is not valid".to_string());
        }
        if !url3.is_empty() && !Self::is_valid_url(url3) {
            return Err("URL3 is not valid".to_string());
        }
        if utf8_len_exceeds(chars_of(location).as_slice(), 100) {
            return Err("Location must be 100 characters or less".to_string());
        }
        Ok(())
    }

    /// Whether the URL starts with `http://` or `https://`.
    pub fn is_valid_url(url: &str) -> (b: bool)
        ensures
            b == valid_url(url@),
    {
        let u = chars_of(url);
        let http = chars_of("http://");
        let https = chars_of("https://");
        starts_with(u.as_slice(), http.as_slice()) || starts_with(u.as_slice(), https.as_slice())
    }

    /// The file path that `file_or_url_to_base64` reads for this field, if
    /// any: the trimmed field, unless it is empty or passed on as it is.
    pub fn file_candidate(val: &str) -> (r: Option<String>)
        ensures
            r is Some <==> trim(val@).len() > 0 && !is_inline_image_ref(trim(val@)),
            r matches Some(p) ==> p@ == trim(val@),
    {
        let t = trim_chars(&chars_of(val));
        if t.len() == 0 || Self::is_inline_ref(&t) {
            None
        } else {
            Some(string_of(t.as_slice()))
        }
    }

    fn is_inline_ref(t: &Vec<char>) -> (b: bool)
        ensures
            b == is_inline_image_ref(t@),
    {
        let data = chars_of("data:");
        let http = chars_of("http");
        starts_with(t.as_slice(), data.as_slice()) || starts_with(t.as_slice(), http.as_slice())
    }

    /// The value sent for an image field: nothing for an empty field; a
    /// data URL or web address as it is; the content of the named file as a
    /// PNG data URL (nothing for a file over 1 MiB); else the text itself if
    /// it is valid Base64. `file` is the content of the file that
    /// `file_candidate` names, where it exists and could be read.
    pub fn file_or_url_to_base64(val: &str, file: Option<Vec<u8>>) -> (r: Option<String>)
        ensures
            r matches Some(s) ==> image_field_value(val@, opt_bytes(file)) == Some(s@),
            r is None ==> image_field_value(val@, opt_bytes(file)) is None,
    {
        let t = trim_chars(&chars_of(val));
        if t.len() == 0 {
            return None;
        }
        if Self::is_inline_ref(&t) {
            return Some(string_of(t.as_slice()));
        }
        match file {
            Some(bytes) => {
                if bytes.len() > MAX_IMAGE_FILE_BYTES {
                    None
                } else {
                    let mut s = "data:image/png;base64,".to_string();
                    let enc = base64_encode(bytes.as_slice());
                    s.append(enc.as_str());
                    Some(s)
                }
            }
            None => {
                let ts = string_of(t.as_slice());
                match base64_decode(ts.as_str()) {
                    Some(_) => Some(ts),
                    None => None,
                }
            }
        }
    }
}

} // verus!
