//! How a byte string travels inside an envelope: as base58 text, either of
//! the bytes as they are or of the bytes behind a length frame.
//!
//! Field elements and curve points have a fixed size and travel bare.
//! SHA-256 digests are kept as variable-length byte strings and travel
//! framed.

use crate::base58::{base58_bytes, base58_text, bs58_decode, bs58_encode};
use crate::encoding::{
    check_each_encoding, check_encoding, each_well_encoded, well_encoded, Shape,
};
use crate::framing::{frame_bytes, framed, unframe_bytes, unframed};
use vstd::prelude::*;

verus! {

/// Whether a value is framed before it is turned into text.
#[derive(Clone, Copy, Debug, PartialEq, Eq, Structural)]
pub enum Layout {
    /// The bytes as they are.
    Bare,
    /// The bytes behind their length.
    Framed,
}

/// The text in which `bytes` travels.
pub open spec fn wire_text(bytes: Seq<u8>, layout: Layout) -> Seq<char> {
    match layout {
        Layout::Bare => base58_text(bytes),
        Layout::Framed => base58_text(framed(bytes)),
    }
}

/// The bytes that `text` carries, or `None` if it is not base58 or its
/// frame is cut short.
pub open spec fn wire_bytes(text: Seq<char>, layout: Layout) -> Option<Seq<u8>> {
    match layout {
        Layout::Bare => base58_bytes(text),
        Layout::Framed => match base58_bytes(text) {
            Some(frame) => unframed(frame),
            None => None,
        },
    }
}

/// The byte strings held by a list, in order.
pub open spec fn blobs(items: &Vec<Vec<u8>>) -> Seq<Seq<u8>> {
    Seq::new(items@.len(), |i: int| items@[i]@)
}

/// The texts held by a list of strings, in order.
pub open spec fn texts(items: &Vec<String>) -> Seq<Seq<char>> {
    Seq::new(items@.len(), |i: int| items@[i]@)
}

/// The text in which each byte string of a list travels.
pub open spec fn wire_text_of_each(items: Seq<Seq<u8>>, layout: Layout) -> Seq<Seq<char>> {
    Seq::new(items.len(), |i: int| wire_text(items[i], layout))
}

/// The bytes that each text of a list carries, or `None` if one of them
/// carries none.
pub open spec fn wire_bytes_of_each(items: Seq<Seq<char>>, layout: Layout) -> Option<
    Seq<Seq<u8>>,
> {
    if forall|i: int| 0 <= i < items.len() ==> wire_bytes(#[trigger] items[i], layout) is Some {
        Some(Seq::new(items.len(), |i: int| wire_bytes(items[i], layout).unwrap()))
    } else {
        None
    }
}

/// Turns `bytes` into the text in which it travels.
pub fn to_wire(bytes: &Vec<u8>, layout: Layout) -> (text: String)
    ensures
        text@ == wire_text(bytes@, layout),
        wire_bytes(text@, layout) == Some(bytes@),
{
    match layout {
        Layout::Bare => bs58_encode(bytes),
        Layout::Framed => {
            let frame = frame_bytes(bytes);
            bs58_encode(&frame)
        },
    }
}

/// Reads the bytes that `text` carries.
pub fn from_wire(text: &String, layout: Layout) -> (bytes: Option<Vec<u8>>)
    ensures
        match bytes {
            Some(carried) => wire_bytes(text@, layout) == Some(carried@),
            None => wire_bytes(text@, layout) is None,
        },
{
    match bs58_decode(text) {
        Some(decoded) => match layout {
            Layout::Bare => Some(decoded),
            Layout::Framed => unframe_bytes(&decoded),
        },
        None => None,
    }
}

/// Turns each byte string of `items` into text.
pub fn to_wire_all(items: &Vec<Vec<u8>>, layout: Layout) -> (encoded: Vec<String>)
    ensures
        texts(&encoded) == wire_text_of_each(blobs(items), layout),
        wire_bytes_of_each(texts(&encoded), layout) == Some(blobs(items)),
{
    let mut encoded: Vec<String> = Vec::new();
    let mut i: usize = 0;
    while i < items.len()
        invariant
            i <= items@.len(),
            encoded@.len() == i,
            forall|k: int|
                0 <= k < i ==> (#[trigger] encoded@[k])@ == wire_text(items@[k]@, layout)
                    && wire_bytes(encoded@[k]@, layout) == Some(items@[k]@),
        decreases items@.len() - i,
    {
        encoded.push(to_wire(&items[i], layout));
        i += 1;
    }
    proof {
        assert(texts(&encoded) =~= wire_text_of_each(blobs(items), layout));
        assert forall|k: int| 0 <= k < texts(&encoded).len() implies wire_bytes(
            #[trigger] texts(&encoded)[k],
            layout,
        ) is Some by {
            assert(wire_bytes(encoded@[k]@, layout) == Some(items@[k]@));
        }
        assert(wire_bytes_of_each(texts(&encoded), layout).unwrap() =~= blobs(items)) by {
            assert forall|k: int| 0 <= k < items@.len() implies #[trigger] wire_bytes_of_each(
                texts(&encoded),
                layout,
            ).unwrap()[k] == blobs(items)[k] by {
                assert(wire_bytes(encoded@[k]@, layout) == Some(items@[k]@));
            }
        }
    }
    encoded
}

/// Reads the bytes that each text of `items` carries; `None` if one of
/// them carries none.
pub fn from_wire_all(items: &Vec<String>, layout: Layout) -> (decoded: Option<Vec<Vec<u8>>>)
    ensures
        match decoded {
            Some(list) => wire_bytes_of_each(texts(items), layout) == Some(blobs(&list)),
            None => wire_bytes_of_each(texts(items), layout) is None,
        },
{
    let mut list: Vec<Vec<u8>> = Vec::new();
    let mut i: usize = 0;
    while i < items.len()
        invariant
            i <= items@.len(),
            list@.len() == i,
            forall|k: int|
                0 <= k < i ==> wire_bytes(items@[k]@, layout) == Some((#[trigger] list@[k])@),
        decreases items@.len() - i,
    {
        match from_wire(&items[i], layout) {
            Some(bytes) => {
                list.push(bytes);
            },
            None => {
                proof {
                    assert(wire_bytes(texts(items)[i as int], layout) is None);
                }
                return None;
            },
        }
        i += 1;
    }
    proof {
        assert forall|k: int| 0 <= k < texts(items).len() implies wire_bytes(
            #[trigger] texts(items)[k],
            layout,
        ) is Some by {
            assert(wire_bytes(items@[k]@, layout) == Some(list@[k]@));
        }
        assert(wire_bytes_of_each(texts(items), layout).unwrap() =~= blobs(&list)) by {
            assert forall|k: int| 0 <= k < items@.len() implies #[trigger] wire_bytes_of_each(
                texts(items),
                layout,
            ).unwrap()[k] == blobs(&list)[k] by {
                assert(wire_bytes(items@[k]@, layout) == Some(list@[k]@));
            }
        }
    }
    Some(list)
}

/// The bytes that `text` carries if they are what `shape` says; `None`
/// if the text carries no bytes or they are something else.
pub open spec fn read_bytes(text: Seq<char>, layout: Layout, shape: Shape) -> Option<Seq<u8>> {
    match wire_bytes(text, layout) {
        Some(bytes) => if well_encoded(bytes, shape) {
            Some(bytes)
        } else {
            None
        },
        None => None,
    }
}

/// The bytes that each text of a list carries if they all are what `shape`
/// says; `None` if one of the texts carries no bytes or something else.
pub open spec fn read_bytes_of_each(
    items: Seq<Seq<char>>,
    layout: Layout,
    shape: Shape,
) -> Option<Seq<Seq<u8>>> {
    match wire_bytes_of_each(items, layout) {
        Some(list) => if each_well_encoded(list, shape) {
            Some(list)
        } else {
            None
        },
        None => None,
    }
}

/// Reads the bytes that `text` carries and checks that they are what
/// `shape` says.
pub fn read_wire(text: &String, layout: Layout, shape: Shape) -> (bytes: Option<Vec<u8>>)
    ensures
        match bytes {
            Some(carried) => read_bytes(text@, layout, shape) == Some(carried@),
            None => read_bytes(text@, layout, shape) is None,
        },
{
    match from_wire(text, layout) {
        Some(carried) => if check_encoding(&carried, shape) {
            Some(carried)
        } else {
            None
        },
        None => None,
    }
}

/// Reads the bytes that each text of `items` carries and checks that they
/// are what `shape` says.
pub fn read_wire_all(items: &Vec<String>, layout: Layout, shape: Shape) -> (decoded: Option<
    Vec<Vec<u8>>,
>)
    ensures
        match decoded {
            Some(list) => read_bytes_of_each(texts(items), layout, shape) == Some(blobs(&list)),
            None => read_bytes_of_each(texts(items), layout, shape) is None,
        },
{
    match from_wire_all(items, layout) {
        Some(list) => if check_each_encoding(&list, shape) {
            Some(list)
        } else {
            None
        },
        None => None,
    }
}

} // verus!
