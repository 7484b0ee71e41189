//! The framing of MLS messages: where the parts of a message begin and end.
//!
//! Most parts of a message have a variable length, which they begin with.
//! [`is_well_framed`] follows these lengths through a message, before OpenMLS is
//! asked to read it: that every length is one that MLS allows, and that the
//! parts lie within the message. What the parts hold is up to OpenMLS.
//!
//! A part is a type that says by [`Part`] how far it reaches. The parts of MLS are
//! put together from a few of them.

use vstd::prelude::*;

verus! {

/// The longest message: what the length of a part can be at most.
pub const MAX_MESSAGE: usize = 0x3FFF_FFFF;

/// The 16-bit number at `pos`, big-endian.
pub open spec fn number_at(data: Seq<u8>, pos: nat) -> nat {
    let at = pos as int;
    (data[at] * 0x100 + data[at + 1]) as nat
}

/// The length that stands at `pos`, and how many bytes it takes; `None` if there
/// is none that MLS allows. The two highest bits tell how many bytes it takes: one,
/// two or four, and no more than are needed.
pub open spec fn length_at(data: Seq<u8>, pos: nat) -> Option<(nat, nat)> {
    if pos >= data.len() {
        None
    } else {
        let at = pos as int;
        let first = data[at] as nat;
        if first < 0x40 {
            Some((first, 1))
        } else if first < 0x80 && pos + 2 <= data.len() {
            let length = ((first - 0x40) * 0x100 + data[at + 1]) as nat;
            if prefix_size(length) == 2 {
                Some((length, 2))
            } else {
                None
            }
        } else if 0x80 <= first < 0xC0 && pos + 4 <= data.len() {
            let length = ((first - 0x80) * 0x100_0000 + data[at + 1] * 0x1_0000 + data[at + 2]
                * 0x100 + data[at + 3]) as nat;
            if prefix_size(length) == 4 {
                Some((length, 4))
            } else {
                None
            }
        } else {
            None
        }
    }
}

/// How many bytes a length takes.
pub open spec fn prefix_size(length: nat) -> nat {
    if length <= 0x3F {
        1
    } else if length <= 0x3FFF {
        2
    } else {
        4
    }
}

/// A part of a message.
pub trait Part: Sized {
    /// Where the part at `pos` ends, and how many bytes it has once it is written
    /// anew; `None` if it is not well framed.
    ///
    /// The two differ where the elements of a vector go beyond its length, which
    /// is then another one.
    spec fn extent(data: Seq<u8>, pos: nat) -> Option<(nat, nat)>;

    /// Find where the part at `pos` ends.
    fn skip(data: &[u8], pos: usize) -> (r: Option<(usize, u64)>)
        requires
            pos <= data@.len() <= MAX_MESSAGE,
        ensures
            match r {
                Some((end, size)) => {
                    &&& Self::extent(data@, pos as nat) == Some((end as nat, size as nat))
                    &&& pos <= end <= data@.len()
                    &&& size <= 4 * (end - pos)
                },
                None => Self::extent(data@, pos as nat) is None,
            },
    ;
}

/// The extent of a part, as [`Part::extent`] gives it.
#[verifier::opaque]
pub open spec fn extent_of<P: Part>(data: Seq<u8>, pos: nat) -> Option<(nat, nat)> {
    P::extent(data, pos)
}

/// Find where the part `P` at `pos` ends.
fn skip_part<P: Part>(data: &[u8], pos: usize) -> (r: Option<(usize, u64)>)
    requires
        pos <= data@.len() <= MAX_MESSAGE,
    ensures
        match r {
            Some((end, size)) => {
                &&& extent_of::<P>(data@, pos as nat) == Some((end as nat, size as nat))
                &&& pos <= end <= data@.len()
                &&& size <= 4 * (end - pos)
            },
            None => extent_of::<P>(data@, pos as nat) is None,
        },
{
    reveal(extent_of);
    P::skip(data, pos)
}

/// `N` bytes.
pub struct Fixed<const N: usize>;

impl<const N: usize> Part for Fixed<N> {
    open spec fn extent(data: Seq<u8>, pos: nat) -> Option<(nat, nat)> {
        if pos + N <= data.len() {
            Some((pos + N as nat, N as nat))
        } else {
            None
        }
    }

    fn skip(data: &[u8], pos: usize) -> (r: Option<(usize, u64)>) {
        if N <= data.len() - pos {
            Some((pos + N, N as u64))
        } else {
            None
        }
    }
}

/// What never is well framed.
pub struct Never;

impl Part for Never {
    open spec fn extent(data: Seq<u8>, pos: nat) -> Option<(nat, nat)> {
        None
    }

    fn skip(data: &[u8], pos: usize) -> (r: Option<(usize, u64)>) {
        None
    }
}

/// Read the length that stands at `pos`.
fn read_length(data: &[u8], pos: usize) -> (r: Option<(usize, usize)>)
    requires
        pos <= data@.len() <= MAX_MESSAGE,
    ensures
        match r {
            Some((length, prefix)) => length_at(data@, pos as nat) == Some(
                (length as nat, prefix as nat),
            ) && 1 <= prefix <= data@.len() - pos && length <= MAX_MESSAGE,
            None => length_at(data@, pos as nat) is None,
        },
{
    if pos == data.len() {
        return None;
    }
    let first: usize = data[pos] as usize;
    if first < 0x40 {
        Some((first, 1))
    } else if first < 0x80 && data.len() - pos >= 2 {
        let length: usize = (first - 0x40) * 0x100 + data[pos + 1] as usize;
        if length > 0x3F {
            Some((length, 2))
        } else {
            None
        }
    } else if first >= 0x80 && first < 0xC0 && data.len() - pos >= 4 {
        let length: usize = (first - 0x80) * 0x100_0000 + data[pos + 1] as usize * 0x1_0000
            + data[pos + 2] as usize * 0x100 + data[pos + 3] as usize;
        if length > 0x3FFF {
            Some((length, 4))
        } else {
            None
        }
    } else {
        None
    }
}

/// Bytes behind their length.
pub struct Bytes;

impl Part for Bytes {
    open spec fn extent(data: Seq<u8>, pos: nat) -> Option<(nat, nat)> {
        match length_at(data, pos) {
            Some((length, prefix)) => if pos + prefix + length <= data.len() {
                Some((pos + prefix + length, prefix + length))
            } else {
                None
            },
            None => None,
        }
    }

    fn skip(data: &[u8], pos: usize) -> (r: Option<(usize, u64)>) {
        match read_length(data, pos) {
            Some((length, prefix)) => if length <= data.len() - pos - prefix {
                Some((pos + prefix + length, (prefix + length) as u64))
            } else {
                None
            },
            None => None,
        }
    }
}

/// One part behind another.
pub struct Pair<A, B> {
    pub first: A,
    pub second: B,
}

impl<A: Part, B: Part> Part for Pair<A, B> {
    open spec fn extent(data: Seq<u8>, pos: nat) -> Option<(nat, nat)> {
        match A::extent(data, pos) {
            Some((end, size)) => behind(size, B::extent(data, end)),
            None => None,
        }
    }

    fn skip(data: &[u8], pos: usize) -> (r: Option<(usize, u64)>) {
        match A::skip(data, pos) {
            Some((end, size)) => match B::skip(data, end) {
                Some((last, more)) => Some((last, size + more)),
                None => None,
            },
            None => None,
        }
    }
}

/// The extent of a part together with `size` bytes in front of it.
pub open spec fn behind(size: nat, rest: Option<(nat, nat)>) -> Option<(nat, nat)> {
    match rest {
        Some((end, more)) => Some((end, size + more)),
        None => None,
    }
}

/// A part that may be missing: 0 if it is, or else 1 and the part.
pub struct Maybe<E> {
    pub part: E,
}

impl<E: Part> Part for Maybe<E> {
    open spec fn extent(data: Seq<u8>, pos: nat) -> Option<(nat, nat)> {
        if pos >= data.len() {
            None
        } else if data[pos as int] == 0 {
            Some((pos + 1, 1))
        } else if data[pos as int] == 1 {
            behind(1, E::extent(data, pos + 1))
        } else {
            None
        }
    }

    fn skip(data: &[u8], pos: usize) -> (r: Option<(usize, u64)>) {
        if pos == data.len() {
            return None;
        }
        if data[pos] == 0 {
            Some((pos + 1, 1))
        } else if data[pos] == 1 {
            match E::skip(data, pos + 1) {
                Some((end, size)) => Some((end, size + 1)),
                None => None,
            }
        } else {
            None
        }
    }
}

/// One of four parts, behind its number.
pub struct OneOf<A, B, C, D> {
    pub first: A,
    pub second: B,
    pub third: C,
    pub fourth: D,
}

impl<A: Part, B: Part, C: Part, D: Part> Part for OneOf<A, B, C, D> {
    open spec fn extent(data: Seq<u8>, pos: nat) -> Option<(nat, nat)> {
        if pos >= data.len() {
            None
        } else {
            behind(
                1,
                match data[pos as int] {
                    1 => A::extent(data, pos + 1),
                    2 => B::extent(data, pos + 1),
                    3 => C::extent(data, pos + 1),
                    4 => D::extent(data, pos + 1),
                    _ => None,
                },
            )
        }
    }

    fn skip(data: &[u8], pos: usize) -> (r: Option<(usize, u64)>) {
        if pos == data.len() {
            return None;
        }
        let rest = match data[pos] {
            1 => A::skip(data, pos + 1),
            2 => B::skip(data, pos + 1),
            3 => C::skip(data, pos + 1),
            4 => D::skip(data, pos + 1),
            _ => None,
        };
        match rest {
            Some((end, size)) => Some((end, size + 1)),
            None => None,
        }
    }
}

/// Where the elements from `pos` on end that make up for a vector's length, and
/// how many bytes they have, of which `taken` are behind us.
pub open spec fn elements<E: Part>(data: Seq<u8>, pos: nat, taken: nat, length: nat) -> Option<
    (nat, nat),
>
    decreases data.len() - pos,
{
    if taken >= length {
        Some((pos, taken))
    } else {
        match E::extent(data, pos) {
            Some((end, size)) => if pos < end <= data.len() {
                elements::<E>(data, end, taken + size, length)
            } else {
                None
            },
            None => None,
        }
    }
}

/// Elements behind their length.
pub struct Vector<E> {
    pub element: E,
}

impl<E: Part> Part for Vector<E> {
    open spec fn extent(data: Seq<u8>, pos: nat) -> Option<(nat, nat)> {
        match length_at(data, pos) {
            Some((length, prefix)) => match elements::<E>(data, pos + prefix, 0, length) {
                Some((end, size)) => if size <= MAX_MESSAGE {
                    Some((end, prefix_size(size) + size))
                } else {
                    None
                },
                None => None,
            },
            None => None,
        }
    }

    fn skip(data: &[u8], pos: usize) -> (r: Option<(usize, u64)>) {
        let (length, prefix) = match read_length(data, pos) {
            Some(found) => found,
            None => return None,
        };
        let start: usize = pos + prefix;
        let mut end: usize = start;
        let mut taken: u64 = 0;
        while taken < length as u64
            invariant
                start <= end <= data@.len() <= MAX_MESSAGE,
                taken <= 4 * (end - start),
                elements::<E>(data@, start as nat, 0, length as nat) == elements::<E>(
                    data@,
                    end as nat,
                    taken as nat,
                    length as nat,
                ),
                length_at(data@, pos as nat) == Some((length as nat, prefix as nat)),
                start == pos + prefix,
            decreases data@.len() - end,
        {
            let (next, size) = match E::skip(data, end) {
                Some(found) => found,
                None => return None,
            };
            if next == end {
                return None;
            }
            end = next;
            taken = taken + size;
        }
        if taken > MAX_MESSAGE as u64 {
            return None;
        }
        let anew: u64 = if taken <= 0x3F {
            1
        } else if taken <= 0x3FFF {
            2
        } else {
            4
        };
        Some((end, anew + taken))
    }
}

/// How many bytes OpenMLS counts for the length of an extension's data.
pub open spec fn extension_prefix_size(length: nat) -> nat {
    if length < 0x40 {
        1
    } else if length < 0x3FFF {
        2
    } else if length < 0x3FFF_FFFF {
        4
    } else {
        8
    }
}

/// How many bytes the data of an extension have once they are written anew;
/// `None` if they are not the part `P`.
#[verifier::opaque]
pub open spec fn data_size<P: Part>(data: Seq<u8>) -> Option<nat> {
    match P::extent(data, 0) {
        Some((end, size)) => if end == data.len() {
            Some(size)
        } else {
            None
        },
        None => None,
    }
}

/// Find how many bytes the data of an extension have.
fn size_of_data<P: Part>(data: &[u8]) -> (r: Option<u64>)
    requires
        data@.len() <= MAX_MESSAGE,
    ensures
        match r {
            Some(size) => data_size::<P>(data@) == Some(size as nat) && size <= 4 * data@.len(),
            None => data_size::<P>(data@) is None,
        },
{
    reveal(data_size);
    match P::skip(data, 0) {
        Some((end, size)) => if end == data.len() {
            Some(size)
        } else {
            None
        },
        None => None,
    }
}

/// The types of the extensions whose data OpenMLS reads.
pub open spec fn known_extension(kind: nat) -> bool {
    1 <= kind <= 5 || kind == 10
}

/// How many bytes the data of an extension of a leaf have: of the types that
/// OpenMLS reads, a leaf can have an application id.
pub open spec fn leaf_data_size(kind: nat, data: Seq<u8>) -> Option<nat> {
    if kind == 1 {
        data_size::<Bytes>(data)
    } else if known_extension(kind) {
        None
    } else {
        Some(data.len())
    }
}

/// How many bytes the data of an extension have.
pub open spec fn any_data_size(kind: nat, data: Seq<u8>) -> Option<nat> {
    if kind == 1 || kind == 4 {
        data_size::<Bytes>(data)
    } else if kind == 2 {
        data_size::<RatchetTree>(data)
    } else if kind == 3 {
        data_size::<RequiredCapabilities>(data)
    } else if kind == 5 {
        data_size::<ExternalSenders>(data)
    } else if kind == 10 {
        data_size::<Fixed<0>>(data)
    } else {
        Some(data.len())
    }
}

/// The extent of an extension at `pos`, given what its data have: the type, and
/// the data behind their length.
pub open spec fn extension_extent(
    data: Seq<u8>,
    pos: nat,
    content: spec_fn(nat, Seq<u8>) -> Option<nat>,
) -> Option<(nat, nat)> {
    if pos + 2 > data.len() {
        None
    } else {
        match (length_at(data, pos + 2), Bytes::extent(data, pos + 2)) {
            (Some((length, prefix)), Some((end, _))) => {
                let inner = data.subrange(end - length, end as int);
                match content(number_at(data, pos), inner) {
                    Some(size) => Some((end, 2 + extension_prefix_size(size) + size)),
                    None => None,
                }
            },
            _ => None,
        }
    }
}

/// Find the type of an extension, and where its data begin and end.
fn read_extension(data: &[u8], pos: usize) -> (r: Option<(usize, usize, usize)>)
    requires
        pos <= data@.len() <= MAX_MESSAGE,
    ensures
        match r {
            Some((kind, begin, end)) => {
                &&& pos + 2 <= data@.len()
                &&& kind == number_at(data@, pos as nat)
                &&& pos + 3 <= begin <= end <= data@.len()
                &&& length_at(data@, (pos + 2) as nat) matches Some((length, prefix))
                &&& begin + length == end
                &&& Bytes::extent(data@, (pos + 2) as nat) == Some((end as nat, prefix + length))
            },
            None => pos + 2 > data@.len() || Bytes::extent(data@, (pos + 2) as nat) is None,
        },
{
    if data.len() - pos < 2 {
        return None;
    }
    let kind: usize = data[pos] as usize * 0x100 + data[pos + 1] as usize;
    match read_length(data, pos + 2) {
        Some((length, prefix)) => if length <= data.len() - pos - 2 - prefix {
            Some((kind, pos + 2 + prefix, pos + 2 + prefix + length))
        } else {
            None
        },
        None => None,
    }
}

/// The bytes of an extension whose data have `size`.
fn extension_size(size: u64) -> (n: u64)
    requires
        size <= 4 * MAX_MESSAGE,
    ensures
        n == 2 + extension_prefix_size(size as nat) + size,
{
    if size < 0x40 {
        size + 3
    } else if size < 0x3FFF {
        size + 4
    } else if size < 0x3FFF_FFFF {
        size + 6
    } else {
        size + 10
    }
}

/// An extension of a leaf.
pub struct LeafExtension;

impl Part for LeafExtension {
    open spec fn extent(data: Seq<u8>, pos: nat) -> Option<(nat, nat)> {
        extension_extent(data, pos, |kind: nat, inner: Seq<u8>| leaf_data_size(kind, inner))
    }

    fn skip(data: &[u8], pos: usize) -> (r: Option<(usize, u64)>) {
        let (kind, begin, end) = match read_extension(data, pos) {
            Some(found) => found,
            None => return None,
        };
        let inner = &data[begin..end];
        let size: Option<u64> = if kind == 1 {
            size_of_data::<Bytes>(inner)
        } else if (2 <= kind && kind <= 5) || kind == 10 {
            None
        } else {
            Some(inner.len() as u64)
        };
        match size {
            Some(size) => Some((end, extension_size(size))),
            None => None,
        }
    }
}

/// An extension of anything else.
pub struct AnyExtension;

impl Part for AnyExtension {
    open spec fn extent(data: Seq<u8>, pos: nat) -> Option<(nat, nat)> {
        extension_extent(data, pos, |kind: nat, inner: Seq<u8>| any_data_size(kind, inner))
    }

    fn skip(data: &[u8], pos: usize) -> (r: Option<(usize, u64)>) {
        let (kind, begin, end) = match read_extension(data, pos) {
            Some(found) => found,
            None => return None,
        };
        let inner = &data[begin..end];
        let size: Option<u64> = match kind {
            1 | 4 => size_of_data::<Bytes>(inner),
            2 => size_of_data::<RatchetTree>(inner),
            3 => size_of_data::<RequiredCapabilities>(inner),
            5 => size_of_data::<ExternalSenders>(inner),
            10 => size_of_data::<Fixed<0>>(inner),
            _ => Some(inner.len() as u64),
        };
        match size {
            Some(size) => Some((end, extension_size(size))),
            None => None,
        }
    }
}

/// Numbers of two bytes, such as extension types.
pub type Numbers = Vector<Fixed<2>>;

/// Type and content.
pub type CredentialPart = Pair<Fixed<2>, Bytes>;

/// Versions, ciphersuites, extensions, proposals, credentials.
pub type Capabilities = Pair<Numbers, Pair<Numbers, Pair<Numbers, Pair<Numbers, Numbers>>>>;

/// Lifetime, nothing, or parent hash.
pub type LeafSource = OneOf<Fixed<16>, Fixed<0>, Bytes, Never>;

/// Source, extensions, signature.
pub type LeafRest = Pair<LeafSource, Pair<Vector<LeafExtension>, Bytes>>;

/// Encryption key, signature key, credential, capabilities, and the rest.
pub type LeafNode = Pair<Bytes, Pair<Bytes, Pair<CredentialPart, Pair<Capabilities, LeafRest>>>>;

/// Encryption key, parent hash, unmerged leaves.
pub type ParentNode = Pair<Bytes, Pair<Bytes, Vector<Fixed<4>>>>;

/// The nodes of the tree, as far as they are there.
pub type RatchetTree = Vector<Maybe<OneOf<LeafNode, ParentNode, Never, Never>>>;

/// Extension types, proposal types, credential types.
pub type RequiredCapabilities = Pair<Numbers, Pair<Numbers, Numbers>>;

/// Signature keys and credentials.
pub type ExternalSenders = Vector<Pair<Bytes, CredentialPart>>;

/// Extensions of anything but a leaf.
pub type Extensions = Vector<AnyExtension>;

/// Version with ciphersuite, init key, leaf, extensions, signature.
pub type KeyPackagePart = Pair<Fixed<4>, Pair<Bytes, Pair<LeafNode, Pair<Extensions, Bytes>>>>;

/// Usage, group id, epoch.
pub type ResumptionKey = Pair<Fixed<1>, Pair<Bytes, Fixed<8>>>;

/// Id of a pre-shared key, and nonce.
pub type PreSharedKey = Pair<OneOf<Bytes, ResumptionKey, Never, Never>, Bytes>;

/// Group id, version with ciphersuite, extensions.
pub type ReInit = Pair<Bytes, Pair<Fixed<4>, Extensions>>;

/// A proposal: its type, and what goes with it.
pub struct Proposal;

impl Part for Proposal {
    open spec fn extent(data: Seq<u8>, pos: nat) -> Option<(nat, nat)> {
        if pos + 2 > data.len() {
            None
        } else {
            let kind = number_at(data, pos);
            behind(
                2,
                if kind == 1 {
                    extent_of::<KeyPackagePart>(data, pos + 2)
                } else if kind == 2 {
                    extent_of::<LeafNode>(data, pos + 2)
                } else if kind == 3 {
                    extent_of::<Fixed<4>>(data, pos + 2)
                } else if kind == 4 {
                    extent_of::<PreSharedKey>(data, pos + 2)
                } else if kind == 5 {
                    extent_of::<ReInit>(data, pos + 2)
                } else if kind == 7 {
                    extent_of::<Extensions>(data, pos + 2)
                } else if kind == 10 {
                    extent_of::<Fixed<0>>(data, pos + 2)
                } else {
                    extent_of::<Bytes>(data, pos + 2)
                },
            )
        }
    }

    fn skip(data: &[u8], pos: usize) -> (r: Option<(usize, u64)>) {
        if data.len() - pos < 2 {
            return None;
        }
        let kind: usize = data[pos] as usize * 0x100 + data[pos + 1] as usize;
        let rest = match kind {
            1 => skip_part::<KeyPackagePart>(data, pos + 2),
            2 => skip_part::<LeafNode>(data, pos + 2),
            3 => skip_part::<Fixed<4>>(data, pos + 2),
            4 => skip_part::<PreSharedKey>(data, pos + 2),
            5 => skip_part::<ReInit>(data, pos + 2),
            7 => skip_part::<Extensions>(data, pos + 2),
            10 => skip_part::<Fixed<0>>(data, pos + 2),
            _ => skip_part::<Bytes>(data, pos + 2),
        };
        match rest {
            Some((end, size)) => Some((end, size + 2)),
            None => None,
        }
    }
}

/// Public key and encrypted path secrets.
pub type PathNode = Pair<Bytes, Vector<Pair<Bytes, Bytes>>>;

/// Proposals or references to them, and perhaps a path: leaf and nodes.
pub type CommitPart = Pair<
    Vector<OneOf<Proposal, Bytes, Never, Never>>,
    Maybe<Pair<LeafNode, Vector<PathNode>>>,
>;

/// Index in the tree, index among the external senders, or nothing.
pub type Sender = OneOf<Fixed<4>, Fixed<4>, Fixed<0>, Fixed<0>>;

/// Group id, epoch.
pub type PublicStart = Pair<Bytes, Fixed<8>>;

/// Sender, authenticated data.
pub type PublicMiddle = Pair<Sender, Bytes>;

/// Application data, proposal, or commit.
pub type Content = OneOf<Bytes, Proposal, CommitPart, Never>;

/// A public message: the content, its signature, a confirmation tag if it is a
/// commit, and a membership tag if the sender is a member.
pub struct PublicMessage;

impl Part for PublicMessage {
    open spec fn extent(data: Seq<u8>, pos: nat) -> Option<(nat, nat)> {
        match extent_of::<PublicStart>(data, pos) {
            None => None,
            Some((sender, start)) => match extent_of::<PublicMiddle>(data, sender) {
                None => None,
                Some((content, middle)) => match extent_of::<Pair<Content, Bytes>>(data, content) {
                    None => None,
                    Some((signed, signature)) => behind(
                        start + middle + signature,
                        tags_extent(
                            data,
                            signed,
                            data[content as int] == 3,
                            data[sender as int] == 1,
                        ),
                    ),
                },
            },
        }
    }

    fn skip(data: &[u8], pos: usize) -> (r: Option<(usize, u64)>) {
        let (sender, start) = match skip_part::<PublicStart>(data, pos) {
            Some(found) => found,
            None => return None,
        };
        let (content, middle) = match skip_part::<PublicMiddle>(data, sender) {
            Some(found) => found,
            None => return None,
        };
        let (signed, signature) = match skip_part::<Pair<Content, Bytes>>(data, content) {
            Some(found) => found,
            None => return None,
        };
        assert(sender < data@.len() && content < data@.len()) by {
            reveal(extent_of);
        }
        let rest = match (data[content] == 3, data[sender] == 1) {
            (true, true) => skip_part::<Pair<Bytes, Bytes>>(data, signed),
            (true, false) | (false, true) => skip_part::<Bytes>(data, signed),
            (false, false) => Some((signed, 0)),
        };
        match rest {
            Some((end, size)) => Some((end, start + middle + signature + size)),
            None => None,
        }
    }
}

/// The extent of the tags that stand at `pos`.
pub open spec fn tags_extent(data: Seq<u8>, pos: nat, confirmed: bool, member: bool) -> Option<
    (nat, nat),
> {
    if confirmed && member {
        extent_of::<Pair<Bytes, Bytes>>(data, pos)
    } else if confirmed || member {
        extent_of::<Bytes>(data, pos)
    } else {
        Some((pos, 0))
    }
}

/// Group id, epoch with content type, authenticated data, encrypted sender data,
/// ciphertext.
pub type PrivateMessage = Pair<Bytes, Pair<Fixed<9>, Pair<Bytes, Pair<Bytes, Bytes>>>>;

/// Reference to a key package, and encrypted secrets.
pub type GroupSecrets = Pair<Bytes, Pair<Bytes, Bytes>>;

/// Ciphersuite, secrets, encrypted group information.
pub type WelcomePart = Pair<Fixed<2>, Pair<Vector<GroupSecrets>, Bytes>>;

/// Tree hash, confirmed transcript hash, extensions.
pub type ContextRest = Pair<Bytes, Pair<Bytes, Extensions>>;

/// Version with ciphersuite, group id, epoch, and the rest.
pub type GroupContext = Pair<Fixed<4>, Pair<Bytes, Pair<Fixed<8>, ContextRest>>>;

/// Context, extensions, confirmation tag, signer, signature.
pub type GroupInfo = Pair<GroupContext, Pair<Extensions, Pair<Bytes, Pair<Fixed<4>, Bytes>>>>;

/// A message: version, wire format, and what goes with it.
pub struct Message;

impl Part for Message {
    open spec fn extent(data: Seq<u8>, pos: nat) -> Option<(nat, nat)> {
        if pos + 4 > data.len() {
            None
        } else {
            let format = number_at(data, pos + 2);
            behind(
                4,
                if format == 1 {
                    extent_of::<PublicMessage>(data, pos + 4)
                } else if format == 2 {
                    extent_of::<PrivateMessage>(data, pos + 4)
                } else if format == 3 {
                    extent_of::<WelcomePart>(data, pos + 4)
                } else if format == 4 {
                    extent_of::<GroupInfo>(data, pos + 4)
                } else if format == 5 {
                    extent_of::<KeyPackagePart>(data, pos + 4)
                } else {
                    None
                },
            )
        }
    }

    fn skip(data: &[u8], pos: usize) -> (r: Option<(usize, u64)>) {
        if data.len() - pos < 4 {
            return None;
        }
        let format: usize = data[pos + 2] as usize * 0x100 + data[pos + 3] as usize;
        let rest = match format {
            1 => skip_part::<PublicMessage>(data, pos + 4),
            2 => skip_part::<PrivateMessage>(data, pos + 4),
            3 => skip_part::<WelcomePart>(data, pos + 4),
            4 => skip_part::<GroupInfo>(data, pos + 4),
            5 => skip_part::<KeyPackagePart>(data, pos + 4),
            _ => None,
        };
        match rest {
            Some((end, size)) => Some((end, size + 4)),
            None => None,
        }
    }
}

/// The bytes are framed as an MLS message is, are no more than [`MAX_MESSAGE`], and
/// the message does not become longer when it is written anew.
#[verifier::opaque]
pub open spec fn well_framed(data: Seq<u8>) -> bool {
    &&& data.len() <= MAX_MESSAGE
    &&& extent_of::<Message>(data, 0) matches Some((end, size))
    &&& size <= data.len()
}

/// Tell whether bytes are framed as an MLS message is.
pub fn is_well_framed(data: &[u8]) -> (b: bool)
    ensures
        b == well_framed(data@),
{
    reveal(well_framed);
    if data.len() > MAX_MESSAGE {
        return false;
    }
    match skip_part::<Message>(data, 0) {
        Some((_, size)) => size <= data.len() as u64,
        None => false,
    }
}

/// A length below 64 stands in one byte, itself; one below 2^14 in two big-endian
/// bytes that spell it plus 2^14; one below 2^30 in four that spell it plus 2^31.
/// Nothing else is a length.
pub proof fn lengths_are_minimal(data: Seq<u8>, pos: nat, length: nat, prefix: nat)
    requires
        pos < data.len(),
    ensures
        length_at(data, pos) == Some((length, prefix)) <==> {
            let at = pos as int;
            ||| prefix == 1 && length < 64 && data[at] == length
            ||| prefix == 2 && 64 <= length < 16384 && pos + 2 <= data.len() && 256 * data[at]
                + data[at + 1] == 16384 + length
            ||| prefix == 4 && 16384 <= length < 1073741824 && pos + 4 <= data.len() && 16777216
                * data[at] + 65536 * data[at + 1] + 256 * data[at + 2] + data[at + 3] == 2147483648
                + length
        },
{
}

/// A length as it stands in front of bytes.
#[verifier::opaque]
pub open spec fn written_length(length: nat) -> Seq<u8> {
    if length < 64 {
        seq![length as u8]
    } else if length < 16384 {
        seq![(64 + length / 256) as u8, (length % 256) as u8]
    } else {
        seq![
            (128 + length / 16777216) as u8,
            (length / 65536 % 256) as u8,
            (length / 256 % 256) as u8,
            (length % 256) as u8,
        ]
    }
}

/// A length is read as it was written.
proof fn lemma_length_read(data: Seq<u8>, pos: nat, length: nat)
    requires
        length < 1073741824,
        pos + written_length(length).len() <= data.len(),
        data.subrange(pos as int, pos as int + written_length(length).len()) == written_length(
            length,
        ),
    ensures
        1 <= written_length(length).len() <= 4,
        length_at(data, pos) == Some((length, written_length(length).len())),
{
    reveal(written_length);
    let prefix = written_length(length);
    let at = pos as int;
    let found = data.subrange(at, at + prefix.len());
    assert(found[0] == data[at]);
    if length >= 64 {
        assert(found[1] == data[at + 1]);
    }
    if length >= 16384 {
        assert(found[2] == data[at + 2]);
        assert(found[3] == data[at + 3]);
    }
    lengths_are_minimal(data, pos, length, prefix.len());
}

/// Bytes behind their length are found where they stand.
proof fn lemma_bytes_found(front: Seq<u8>, content: Seq<u8>, back: Seq<u8>)
    requires
        content.len() < 1073741824,
    ensures
        ({
            let prefix = written_length(content.len());
            let data = front + prefix + content + back;
            extent_of::<Bytes>(data, front.len()) == Some(
                (front.len() + prefix.len() + content.len(), prefix.len() + content.len()),
            )
        }),
{
    let prefix = written_length(content.len());
    let data = front + prefix + content + back;
    assert(data.subrange(front.len() as int, front.len() as int + prefix.len()) =~= prefix);
    lemma_length_read(data, front.len(), content.len());
    reveal(extent_of);
}

/// What begins as a private MLS message is well framed: two bytes for the
/// version, 0 and 2, the group ID behind its length, nine bytes for epoch and
/// content type, and behind their lengths the authenticated data, the encrypted
/// sender data and the ciphertext.
pub proof fn private_messages_are_well_framed(
    message: &[u8],
    b: bool,
    version: Seq<u8>,
    group_id: Seq<u8>,
    epoch_and_type: Seq<u8>,
    authenticated: Seq<u8>,
    sender: Seq<u8>,
    ciphertext: Seq<u8>,
)
    requires
        call_ensures(is_well_framed, (message,), b),
        version.len() == 2,
        epoch_and_type.len() == 9,
        message@.len() < 1073741824,
        message@ == version + seq![0u8, 2u8] + written_length(group_id.len()) + group_id
            + epoch_and_type + written_length(authenticated.len()) + authenticated
            + written_length(sender.len()) + sender + written_length(ciphertext.len())
            + ciphertext,
    ensures
        b,
{
    let data = message@;
    let none = Seq::<u8>::empty();
    let head = version + seq![0u8, 2u8];
    let part_a = written_length(group_id.len()) + group_id;
    let part_b = written_length(authenticated.len()) + authenticated;
    let part_c = written_length(sender.len()) + sender;
    let part_d = written_length(ciphertext.len()) + ciphertext;
    let front_b = head + part_a + epoch_and_type;
    let front_c = front_b + part_b;
    let front_d = front_c + part_c;
    let back_a = epoch_and_type + part_b + part_c + part_d;
    assert(data == head + written_length(group_id.len()) + group_id + back_a) by {
        assert(data =~= head + written_length(group_id.len()) + group_id + back_a);
    }
    assert(data == front_b + written_length(authenticated.len()) + authenticated + (part_c
        + part_d)) by {
        assert(data =~= front_b + written_length(authenticated.len()) + authenticated + (part_c
            + part_d));
    }
    assert(data == front_c + written_length(sender.len()) + sender + part_d) by {
        assert(data =~= front_c + written_length(sender.len()) + sender + part_d);
    }
    assert(data == front_d + written_length(ciphertext.len()) + ciphertext + none) by {
        assert(data =~= front_d + written_length(ciphertext.len()) + ciphertext + none);
    }
    lemma_bytes_found(head, group_id, back_a);
    lemma_bytes_found(front_b, authenticated, part_c + part_d);
    lemma_bytes_found(front_c, sender, part_d);
    lemma_bytes_found(front_d, ciphertext, none);
    assert(data[2] == 0 && data[3] == 2);
    lemma_private_extent(data, part_a.len(), part_b.len(), part_c.len(), part_d.len());
}

/// A private message reaches as far as its parts do.
proof fn lemma_private_extent(data: Seq<u8>, a: nat, b: nat, c: nat, d: nat)
    requires
        data.len() == 4 + a + 9 + b + c + d,
        data.len() < 1073741824,
        data[2] == 0,
        data[3] == 2,
        extent_of::<Bytes>(data, 4) == Some((4 + a, a)),
        extent_of::<Bytes>(data, 13 + a) == Some((13 + a + b, b)),
        extent_of::<Bytes>(data, 13 + a + b) == Some((13 + a + b + c, c)),
        extent_of::<Bytes>(data, 13 + a + b + c) == Some((13 + a + b + c + d, d)),
    ensures
        well_framed(data),
{
    reveal(well_framed);
    reveal(extent_of);
    assert(number_at(data, 2) == 2);
    assert(<Fixed<9> as Part>::extent(data, 4 + a) == Some((13 + a, 9nat)));
    assert(<Pair<Bytes, Bytes> as Part>::extent(data, 13 + a + b) == Some(
        (13 + a + b + c + d, c + d),
    ));
    assert(<Pair<Bytes, Pair<Bytes, Bytes>> as Part>::extent(data, 13 + a) == Some(
        (13 + a + b + c + d, b + (c + d)),
    ));
    assert(<Pair<Fixed<9>, Pair<Bytes, Pair<Bytes, Bytes>>> as Part>::extent(data, 4 + a) == Some(
        (13 + a + b + c + d, 9 + (b + (c + d))),
    ));
    assert(<PrivateMessage as Part>::extent(data, 4) == Some(
        (13 + a + b + c + d, a + (9 + (b + (c + d)))),
    ));
}

/// Nothing is well framed that has fewer than four bytes, 2^30 or more, or a wire
/// format other than 1 to 5 in its third and fourth byte.
pub proof fn other_bytes_are_not_well_framed(message: &[u8], b: bool)
    requires
        call_ensures(is_well_framed, (message,), b),
        message@.len() < 4 || message@.len() >= 1073741824 || 256 * message@[2] + message@[3] < 1
            || 256 * message@[2] + message@[3] > 5,
    ensures
        !b,
{
    reveal(well_framed);
    reveal(extent_of);
}

} // verus!
