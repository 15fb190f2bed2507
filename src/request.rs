//! The user's part of an outgoing chat request.
use vstd::prelude::*;

use crate::chars::holds_at;
use crate::textops::trim_text;
use crate::textops::trimmed_of;

verus! {

/// One part of the user's message.
#[derive(Clone, Debug, PartialEq, Eq)]
pub enum ContentPart {
    /// Text of the prompt.
    Text(String),
    /// A link to an image.
    Image(String),
}

/// The mathematical value of a content part.
pub enum ContentPartView {
    Text(Seq<char>),
    Image(Seq<char>),
}

impl View for ContentPart {
    type V = ContentPartView;

    open spec fn view(&self) -> ContentPartView {
        match self {
            ContentPart::Text(t) => ContentPartView::Text(t@),
            ContentPart::Image(u) => ContentPartView::Image(u@),
        }
    }
}

/// Why a message cannot be sent.
#[derive(Clone, Copy, Debug, PartialEq, Eq, Structural)]
pub enum RequestError {
    /// Neither a prompt nor an image was given.
    EmptyMessage,
}

/// The scheme that an image link must have.
pub open spec fn secure_scheme() -> Seq<char> {
    seq!['h', 't', 't', 'p', 's', ':', '/', '/']
}

/// The parts of the user's message: the trimmed prompt, unless it is empty,
/// then the image link, if one is given and it is an `https` link.
pub open spec fn user_parts(prompt: Seq<char>, image_url: Option<Seq<char>>) -> Seq<
    ContentPartView,
> {
    let text = trimmed_of(prompt);
    let text_part = if text.len() > 0 {
        seq![ContentPartView::Text(text)]
    } else {
        seq![]
    };
    let image_part = match image_url {
        Some(u) => {
            if secure_scheme().is_prefix_of(u) {
                seq![ContentPartView::Image(u)]
            } else {
                seq![]
            }
        },
        None => seq![],
    };
    text_part + image_part
}

/// The parts of the user's message, or `EmptyMessage` when there are none.
pub fn user_content(prompt: &str, image_url: Option<String>) -> (r: Result<
    Vec<ContentPart>,
    RequestError,
>)
    ensures
        match r {
            Ok(parts) => {
                &&& parts@.map_values(|p: ContentPart| p@) == user_parts(
                    prompt@,
                    crate::textops::text_opt(image_url),
                )
                &&& parts@.len() > 0
            },
            Err(e) => {
                &&& e == RequestError::EmptyMessage
                &&& user_parts(prompt@, crate::textops::text_opt(image_url)).len() == 0
            },
        },
{
    let mut parts: Vec<ContentPart> = Vec::new();
    let text = trim_text(prompt);
    if text.unicode_len() > 0 {
        parts.push(ContentPart::Text(text.to_owned()));
    }
    match image_url {
        Some(url) => {
            proof {
                reveal_strlit("https://");
                assert("https://"@ =~= secure_scheme());
            }
            let n = url.as_str().unicode_len();
            if holds_at(url.as_str(), n, 0, "https://") {
                parts.push(ContentPart::Image(url));
            }
        },
        None => {},
    }
    proof {
        let v = user_parts(prompt@, crate::textops::text_opt(image_url));
        assert(parts@.map_values(|p: ContentPart| p@) =~= v);
    }
    if parts.len() == 0 {
        Err(RequestError::EmptyMessage)
    } else {
        Ok(parts)
    }
}

/// The greeting for `name`.
pub fn greet(name: &str) -> (r: String)
    ensures
        r@ == "Hello, "@ + name@ + "! You've been greeted from Rust!"@,
{
    let mut r = String::from_str("Hello, ");
    r.append(name);
    r.append("! You've been greeted from Rust!");
    r
}

} // verus!
