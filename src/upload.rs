//! Naming and typing an image before it is stored.
use vstd::prelude::*;

use crate::chars::same_text;
use crate::textops::lowercase;
use crate::textops::lowercase_of;

verus! {

/// The media type of a stored file, by its lower-case extension.
pub open spec fn media_type_of(lower_ext: Seq<char>) -> Seq<char> {
    if lower_ext == seq!['j', 'p', 'g'] || lower_ext == seq!['j', 'p', 'e', 'g'] {
        "image/jpeg"@
    } else if lower_ext == seq!['p', 'n', 'g'] {
        "image/png"@
    } else if lower_ext == seq!['g', 'i', 'f'] {
        "image/gif"@
    } else if lower_ext == seq!['w', 'e', 'b', 'p'] {
        "image/webp"@
    } else {
        "application/octet-stream"@
    }
}

/// The media type for an extension that is already in lower case.
pub fn media_type_for_lowercase(lower_ext: &str) -> (r: String)
    ensures
        r@ == media_type_of(lower_ext@),
{
    proof {
        reveal_strlit("jpg");
        reveal_strlit("jpeg");
        reveal_strlit("png");
        reveal_strlit("gif");
        reveal_strlit("webp");
        assert("jpg"@ =~= seq!['j', 'p', 'g']);
        assert("jpeg"@ =~= seq!['j', 'p', 'e', 'g']);
        assert("png"@ =~= seq!['p', 'n', 'g']);
        assert("gif"@ =~= seq!['g', 'i', 'f']);
        assert("webp"@ =~= seq!['w', 'e', 'b', 'p']);
    }
    let media = if same_text(lower_ext, "jpg") || same_text(lower_ext, "jpeg") {
        "image/jpeg"
    } else if same_text(lower_ext, "png") {
        "image/png"
    } else if same_text(lower_ext, "gif") {
        "image/gif"
    } else if same_text(lower_ext, "webp") {
        "image/webp"
    } else {
        "application/octet-stream"
    };
    media.to_owned()
}

/// The media type for a file extension, in any case.
pub fn media_type_for(ext: &str) -> (r: String)
    ensures
        r@ == media_type_of(lowercase_of(ext@)),
{
    let lower = lowercase(ext);
    media_type_for_lowercase(lower.as_str())
}

/// The name under which a file is stored: its stem (`upload` when it has
/// none), a dash, a unique id, a dot and its extension (`png` when it has
/// none).
pub fn object_key(stem: Option<&str>, id: &str, ext: Option<&str>) -> (r: String)
    ensures
        r@ == match stem {
            Some(s) => s@,
            None => "upload"@,
        } + "-"@ + id@ + "."@ + match ext {
            Some(e) => e@,
            None => "png"@,
        },
{
    let mut key = match stem {
        Some(s) => s.to_owned(),
        None => String::from_str("upload"),
    };
    key.append("-");
    key.append(id);
    key.append(".");
    match ext {
        Some(e) => key.append(e),
        None => key.append("png"),
    }
    key
}

} // verus!
