//! The clipboard payload and its decoding.

use vstd::prelude::*;
use vstd::utf8::decode_utf8;
use vstd::utf8::valid_utf8;

use crate::error::Error;

verus! {

/// Media type of an image payload.
#[derive(Clone, Copy, Debug, PartialEq, Eq, Structural)]
pub enum MimeType {
    /// A PNG image.
    ImagePng,
}

/// The kinds of payload a consumer can be interested in.
#[derive(Clone, Copy, Debug, PartialEq, Eq, Hash, Structural)]
pub enum Kind {
    /// UTF-8 text.
    Utf8,
    /// An image.
    Img,
}

impl Kind {
    /// The registry key used for this kind under the fixed-kind discipline,
    /// where at most one consumer per kind is live at a time.
    pub fn key(&self) -> (k: usize)
        ensures
            k == self.key_spec(),
    {
        match self {
            Kind::Utf8 => 0,
            Kind::Img => 1,
        }
    }

    /// What [`Kind::key`] returns; distinct kinds get distinct keys.
    pub open spec fn key_spec(self) -> usize {
        match self {
            Kind::Utf8 => 0,
            Kind::Img => 1,
        }
    }
}

/// A clipboard item, produced once per detected change.
#[derive(Debug)]
pub enum Body {
    /// UTF-8 encoded text.
    Utf8String(String),
    /// An image, as raw bytes tagged with a media type.
    Image {
        /// The media type of `data`.
        mime: MimeType,
        /// The encoded image bytes.
        data: Vec<u8>,
    },
}

/// The mathematical value of a [`Body`].
pub enum BodyModel {
    /// The characters of a text payload.
    Text(Seq<char>),
    /// The media type and bytes of an image payload.
    Image { mime: MimeType, data: Seq<u8> },
}

impl BodyModel {
    /// The kind of payload this value is.
    pub open spec fn kind(self) -> Kind {
        match self {
            BodyModel::Text(_) => Kind::Utf8,
            BodyModel::Image { .. } => Kind::Img,
        }
    }
}

impl View for Body {
    type V = BodyModel;

    open spec fn view(&self) -> BodyModel {
        match self {
            Body::Utf8String(s) => BodyModel::Text(s@),
            Body::Image { mime, data } => BodyModel::Image { mime: *mime, data: data@ },
        }
    }
}

impl Body {
    /// The kind of payload this body carries.
    pub fn kind(&self) -> (k: Kind)
        ensures
            k == self@.kind(),
    {
        match self {
            Body::Utf8String(_) => Kind::Utf8,
            Body::Image { .. } => Kind::Img,
        }
    }
}

impl Clone for Body {
    /// Broadcasting shares a body with several consumers by cloning it;
    /// the clone carries the same value.
    fn clone(&self) -> (r: Self)
        ensures
            r@ == self@,
    {
        match self {
            Body::Utf8String(s) => Body::Utf8String(s.clone()),
            Body::Image { mime, data } => {
                let bytes = data.clone();
                proof {
                    assert(bytes@ =~= data@);
                }
                Body::Image { mime: *mime, data: bytes }
            },
        }
    }
}

/// The mathematical value of one delivered item: a payload, or a per-item
/// failure surfaced to the consumer in place of one.
pub open spec fn item_model(it: Result<Body, Error>) -> Result<BodyModel, Error> {
    match it {
        Ok(b) => Ok(b@),
        Err(e) => Err(e),
    }
}

/// Clone of one delivered item; the clone carries the same value.
pub fn clone_item(it: &Result<Body, Error>) -> (r: Result<Body, Error>)
    ensures
        item_model(r) == item_model(*it),
{
    match it {
        Ok(b) => Ok(b.clone()),
        Err(e) => Err(*e),
    }
}

/// Relies on `String::from_utf8`: it succeeds exactly on valid UTF-8 input
/// and returns the string whose characters are the input's UTF-8 decoding.
#[verifier::external_body]
fn string_from_utf8(bytes: Vec<u8>) -> (r: Option<String>)
    ensures
        match r {
            Some(s) => valid_utf8(bytes@) && s@ == decode_utf8(bytes@),
            None => !valid_utf8(bytes@),
        },
{
    String::from_utf8(bytes).ok()
}

/// What [`decode_text_content`] returns for given raw clipboard data.
pub open spec fn decoded_text_content(data: Option<Seq<u8>>) -> Option<Result<BodyModel, Error>> {
    match data {
        None => None,
        Some(bytes) => if valid_utf8(bytes) {
            Some(Ok(BodyModel::Text(decode_utf8(bytes))))
        } else {
            Some(Err(Error::ContentDecode))
        },
    }
}

/// Turn the raw bytes read for the text pasteboard type into a deliverable
/// item: no data means no text content is present (not an error), valid
/// UTF-8 becomes a text body, and anything else becomes a decode error that
/// is delivered to consumers as an item.
pub fn decode_text_content(data: Option<Vec<u8>>) -> (r: Option<Result<Body, Error>>)
    ensures
        match r {
            None => decoded_text_content(view_data(data)) is None,
            Some(it) => decoded_text_content(view_data(data)) == Some(item_model(it)),
        },
{
    match data {
        None => None,
        Some(bytes) => match string_from_utf8(bytes) {
            Some(s) => Some(Ok(Body::Utf8String(s))),
            None => Some(Err(Error::ContentDecode)),
        },
    }
}

/// The byte sequence carried by optional raw data.
pub open spec fn view_data(data: Option<Vec<u8>>) -> Option<Seq<u8>> {
    match data {
        None => None,
        Some(bytes) => Some(bytes@),
    }
}

} // verus!
