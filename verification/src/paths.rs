//! Names of entries inside a collection that is exchanged between peers: how
//! a path becomes such a name, and where a name is put on disk.

use vstd::prelude::*;
use vstd::string::StringExecFns;
use vstd::string::StringSliceAdditionalSpecFns;
use crate::storage::join_path;
use crate::text::{bytes_eq, segments, split_pieces, views, Separator, SLASH};
use vstd::slice::slice_to_vec;
use vstd::utf8::encode_utf8;

verus! {

/// ASCII `'\'`.
pub const BACKSLASH: u8 = 92;

/// How a hash is written.
#[derive(Debug, Clone, Copy, PartialEq, Eq, Structural)]
pub enum Format {
    Hex,
    Cid,
}

/// The text names no format.
#[derive(Debug, Clone, Copy, PartialEq, Eq, Structural)]
pub struct InvalidFormat;

/// What a ticket tells about the node that wrote it.
#[derive(Copy, Clone, PartialEq, Eq, Debug, Structural)]
pub enum AddrInfoOptions {
    /// Only the node's identifier.
    Id,
    /// The identifier, the relay and the direct addresses.
    RelayAndAddresses,
    /// The identifier and the relay.
    Relay,
    /// The identifier and the direct addresses.
    Addresses,
}

/// Why a path or a name was refused.
#[derive(Debug, Clone, Copy, PartialEq, Eq, Structural)]
pub enum PathError {
    /// A component holds the path separator.
    Separator,
    /// A component is not valid Unicode.
    InvalidCharacter,
    /// A component is none that may occur: a prefix, the current or the
    /// parent directory, a root where the path must be relative, or a name
    /// with a slash or a backslash in it.
    InvalidComponent,
}

/// One component of a path, as the operating system splits it.
#[derive(Debug, PartialEq, Eq)]
pub enum PathComponent {
    /// A drive or share prefix.
    Prefix,
    /// The root directory.
    RootDir,
    /// `.`
    CurDir,
    /// `..`
    ParentDir,
    /// A name.
    Normal(String),
    /// A name that is not valid Unicode.
    NonUnicode,
}

impl Format {
    /// The format as text.
    pub open spec fn name(self) -> Seq<char> {
        match self {
            Format::Hex => "hex"@,
            Format::Cid => "cid"@,
        }
    }

    /// The format as text.
    pub fn to_text(self) -> (r: String)
        ensures
            r@ == self.name(),
    {
        match self {
            Format::Hex => String::from_str("hex"),
            Format::Cid => String::from_str("cid"),
        }
    }
}

impl InvalidFormat {
    /// The error as text.
    pub fn message(&self) -> (r: String)
        ensures
            r@ == "invalid format"@,
    {
        String::from_str("invalid format")
    }
}

impl Format {
    /// Reads a format, whatever the case of its letters.
    pub fn from_str(s: &str) -> (r: Result<Format, InvalidFormat>)
        ensures
            match r {
                Ok(format) => format_of(s.spec_bytes()) == Some(format),
                Err(_) => format_of(s.spec_bytes()) is None,
            },
    {
        let low = to_lower(s.as_bytes());
        if bytes_eq(low.as_slice(), "hex".as_bytes()) {
            Ok(Format::Hex)
        } else if bytes_eq(low.as_slice(), "cid".as_bytes()) {
            Ok(Format::Cid)
        } else {
            Err(InvalidFormat)
        }
    }
}

impl Default for Format {
    fn default() -> (r: Self)
        ensures
            r == Format::Hex,
    {
        Format::Hex
    }
}

impl AddrInfoOptions {
    /// The option as text.
    pub open spec fn name(self) -> Seq<char> {
        match self {
            AddrInfoOptions::Id => "Id"@,
            AddrInfoOptions::RelayAndAddresses => "RelayAndAddresses"@,
            AddrInfoOptions::Relay => "Relay"@,
            AddrInfoOptions::Addresses => "Addresses"@,
        }
    }

    /// The option as text.
    pub fn to_text(self) -> (r: String)
        ensures
            r@ == self.name(),
    {
        match self {
            AddrInfoOptions::Id => String::from_str("Id"),
            AddrInfoOptions::RelayAndAddresses => String::from_str("RelayAndAddresses"),
            AddrInfoOptions::Relay => String::from_str("Relay"),
            AddrInfoOptions::Addresses => String::from_str("Addresses"),
        }
    }

    /// Whether a ticket of this kind keeps the direct addresses.
    pub open spec fn keeps_addresses_spec(self) -> bool {
        self == AddrInfoOptions::RelayAndAddresses || self == AddrInfoOptions::Addresses
    }

    /// Whether a ticket of this kind keeps the relay.
    pub open spec fn keeps_relay_spec(self) -> bool {
        self == AddrInfoOptions::RelayAndAddresses || self == AddrInfoOptions::Relay
    }

    /// Whether a ticket of this kind keeps the direct addresses.
    pub fn keeps_addresses(self) -> (r: bool)
        ensures
            r == self.keeps_addresses_spec(),
    {
        match self {
            AddrInfoOptions::RelayAndAddresses => true,
            AddrInfoOptions::Addresses => true,
            _ => false,
        }
    }

    /// Whether a ticket of this kind keeps the relay.
    pub fn keeps_relay(self) -> (r: bool)
        ensures
            r == self.keeps_relay_spec(),
    {
        match self {
            AddrInfoOptions::RelayAndAddresses => true,
            AddrInfoOptions::Relay => true,
            _ => false,
        }
    }
}

impl Default for AddrInfoOptions {
    fn default() -> (r: Self)
        ensures
            r == AddrInfoOptions::Id,
    {
        AddrInfoOptions::Id
    }
}

/// The addresses under which a node is reached.
#[derive(Debug, PartialEq, Eq)]
pub struct NodeAddress {
    pub direct_addresses: Vec<String>,
    pub relay_url: Option<String>,
}

/// Leaves in an address what a ticket of the chosen kind tells.
pub fn apply_options(addr: &mut NodeAddress, opts: AddrInfoOptions)
    ensures
        if opts.keeps_addresses_spec() {
            final(addr).direct_addresses == old(addr).direct_addresses
        } else {
            final(addr).direct_addresses@.len() == 0
        },
        final(addr).relay_url == if opts.keeps_relay_spec() {
            old(addr).relay_url
        } else {
            None
        },
{
    if !opts.keeps_addresses() {
        addr.direct_addresses.clear();
    }
    if !opts.keeps_relay() {
        addr.relay_url = None;
    }
}

/// ASCII letters in lower case, every other byte as it is.
pub open spec fn lower(s: Seq<u8>) -> Seq<u8> {
    Seq::new(
        s.len(),
        |i: int|
            if 65 <= s[i] && s[i] <= 90 {
                (s[i] + 32) as u8
            } else {
                s[i]
            },
    )
}

fn to_lower(s: &[u8]) -> (r: Vec<u8>)
    ensures
        r@ == lower(s@),
{
    let mut out: Vec<u8> = Vec::new();
    let mut i: usize = 0;
    while i < s.len()
        invariant
            i <= s@.len(),
            out@ == lower(s@).take(i as int),
        decreases s@.len() - i,
    {
        let b = s[i];
        out.push(if 65 <= b && b <= 90 {
            b + 32
        } else {
            b
        });
        assert(out@ =~= lower(s@).take(i + 1));
        i += 1;
    }
    assert(lower(s@).take(i as int) =~= lower(s@));
    out
}

/// The format that a text names, whatever the case of its letters.
pub open spec fn format_of(text: Seq<u8>) -> Option<Format> {
    if lower(text) == "hex".spec_bytes() {
        Some(Format::Hex)
    } else if lower(text) == "cid".spec_bytes() {
        Some(Format::Cid)
    } else {
        None
    }
}

/// `b` occurs in `s`.
pub open spec fn has_byte(s: Seq<u8>, b: u8) -> bool {
    exists|i: int| 0 <= i < s.len() && #[trigger] s[i] == b
}

/// Whether `b` occurs in `s`.
pub fn contains_byte(s: &[u8], b: u8) -> (r: bool)
    ensures
        r == has_byte(s@, b),
{
    let mut i: usize = 0;
    while i < s.len()
        invariant
            i <= s@.len(),
            forall|j: int| 0 <= j < i ==> #[trigger] s@[j] != b,
        decreases s@.len() - i,
    {
        if s[i] == b {
            return true;
        }
        i += 1;
    }
    false
}

/// Checks that a component of a name holds no path separator.
pub fn validate_path_component(component: &str) -> (r: Result<(), PathError>)
    ensures
        r is Ok <==> !has_byte(component.spec_bytes(), SLASH),
        r is Err ==> r == Err::<(), PathError>(PathError::Separator),
{
    if contains_byte(component.as_bytes(), SLASH) {
        Err(PathError::Separator)
    } else {
        Ok(())
    }
}

/// Why a component may not occur, if it may not.
pub open spec fn component_error(c: PathComponent, must_be_relative: bool) -> Option<PathError> {
    match c {
        PathComponent::Normal(name) => if has_byte(encode_utf8(name@), SLASH) || has_byte(
            encode_utf8(name@),
            BACKSLASH,
        ) {
            Some(PathError::InvalidComponent)
        } else {
            None
        },
        PathComponent::NonUnicode => Some(PathError::InvalidCharacter),
        PathComponent::RootDir => if must_be_relative {
            Some(PathError::InvalidComponent)
        } else {
            None
        },
        _ => Some(PathError::InvalidComponent),
    }
}

/// The error of the first component that may not occur.
pub open spec fn first_error(components: Seq<PathComponent>, must_be_relative: bool) -> Option<
    PathError,
>
    decreases components.len(),
{
    if components.len() == 0 {
        None
    } else {
        match component_error(components[0], must_be_relative) {
            Some(e) => Some(e),
            None => first_error(components.skip(1), must_be_relative),
        }
    }
}

/// Number of root components.
pub open spec fn roots(components: Seq<PathComponent>) -> nat
    decreases components.len(),
{
    if components.len() == 0 {
        0
    } else {
        roots(components.drop_last()) + if components.last() is RootDir {
            1nat
        } else {
            0nat
        }
    }
}

/// The names among the components, in order.
pub open spec fn normals(components: Seq<PathComponent>) -> Seq<Seq<char>>
    decreases components.len(),
{
    if components.len() == 0 {
        Seq::empty()
    } else {
        match components.last() {
            PathComponent::Normal(name) => normals(components.drop_last()).push(name@),
            _ => normals(components.drop_last()),
        }
    }
}

/// The names with a slash between each two.
pub open spec fn join_text(parts: Seq<Seq<char>>) -> Seq<char>
    decreases parts.len(),
{
    if parts.len() == 0 {
        Seq::empty()
    } else if parts.len() == 1 {
        parts[0]
    } else {
        join_text(parts.drop_last()) + seq!['/'] + parts.last()
    }
}

/// The text of a path: a slash for each root, then the names with a slash
/// between each two.
pub open spec fn path_text(components: Seq<PathComponent>) -> Seq<char> {
    Seq::new(roots(components), |i: int| '/') + join_text(normals(components))
}

proof fn lemma_first_error_skip(components: Seq<PathComponent>, must_be_relative: bool, n: int)
    requires
        0 <= n <= components.len(),
        forall|i: int|
            0 <= i < n ==> component_error(#[trigger] components[i], must_be_relative) is None,
    ensures
        first_error(components, must_be_relative) == first_error(
            components.skip(n),
            must_be_relative,
        ),
    decreases n,
{
    if n == 0 {
        assert(components.skip(0) =~= components);
    } else {
        let rest = components.skip(1);
        assert(component_error(components[0], must_be_relative) is None);
        assert forall|i: int| 0 <= i < n - 1 implies component_error(
            #[trigger] rest[i],
            must_be_relative,
        ) is None by {
            assert(rest[i] == components[i + 1]);
        }
        lemma_first_error_skip(rest, must_be_relative, n - 1);
        assert(rest.skip(n - 1) =~= components.skip(n));
    }
}

fn check_component(c: &PathComponent, must_be_relative: bool) -> (r: Option<PathError>)
    ensures
        r == component_error(*c, must_be_relative),
{
    match c {
        PathComponent::Normal(name) => {
            let bytes = name.as_str().as_bytes();
            if contains_byte(bytes, SLASH) || contains_byte(bytes, BACKSLASH) {
                Some(PathError::InvalidComponent)
            } else {
                None
            }
        },
        PathComponent::NonUnicode => Some(PathError::InvalidCharacter),
        PathComponent::RootDir => {
            if must_be_relative {
                Some(PathError::InvalidComponent)
            } else {
                None
            }
        },
        _ => Some(PathError::InvalidComponent),
    }
}

/// Writes a canonical path as text: its names with slashes between them,
/// behind a slash where the path begins at the root. A path with a component
/// that is no name is refused, and so is a path from the root where it must
/// be relative.
pub fn canonicalized_path_to_string(components: &Vec<PathComponent>, must_be_relative: bool) -> (r:
    Result<String, PathError>)
    ensures
        match r {
            Ok(text) => first_error(components@, must_be_relative) is None && text@ == path_text(
                components@,
            ),
            Err(e) => first_error(components@, must_be_relative) == Some(e),
        },
{
    let mut path_str = String::new();
    let mut parts = String::new();
    let mut count: usize = 0;
    let mut i: usize = 0;
    let ghost all = components@;
    proof {
        reveal_strlit("/");
        assert(all.take(0) =~= Seq::<PathComponent>::empty());
        assert(path_str@ =~= Seq::new(0, |k: int| '/'));
    }
    while i < components.len()
        invariant
            i <= components@.len(),
            all == components@,
            count <= i,
            count == normals(all.take(i as int)).len(),
            path_str@ == Seq::new(roots(all.take(i as int)), |k: int| '/'),
            parts@ == join_text(normals(all.take(i as int))),
            forall|j: int| 0 <= j < i ==> component_error(#[trigger] all[j], must_be_relative) is None,
        decreases components@.len() - i,
    {
        let ghost before = all.take(i as int);
        let ghost next = all.take(i + 1);
        proof {
            assert(next.drop_last() =~= before);
            assert(next.last() == all[i as int]);
        }
        match check_component(&components[i], must_be_relative) {
            Some(e) => {
                proof {
                    lemma_first_error_skip(all, must_be_relative, i as int);
                    assert(all.skip(i as int)[0] == all[i as int]);
                }
                return Err(e);
            },
            None => {},
        }
        match &components[i] {
            PathComponent::Normal(name) => {
                if count > 0 {
                    parts.append("/");
                    proof {
                        reveal_strlit("/");
                        assert("/"@ =~= seq!['/']);
                    }
                }
                parts.append(name.as_str());
                count = count + 1;
                proof {
                    let names = normals(next);
                    assert(names == normals(before).push(name@));
                    assert(names.drop_last() =~= normals(before));
                    if count == 1 {
                        assert(parts@ =~= name@);
                    }
                }
            },
            PathComponent::RootDir => {
                path_str.append("/");
                proof {
                    reveal_strlit("/");
                    assert("/"@ =~= seq!['/']);
                    assert(path_str@ =~= Seq::new(roots(next), |k: int| '/'));
                }
            },
            _ => {},
        }
        i += 1;
    }
    proof {
        assert(all.take(i as int) =~= all);
        lemma_first_error_skip(all, must_be_relative, i as int);
    }
    path_str.append(parts.as_str());
    Ok(path_str)
}

/// The path on disk, below `root`, of the entry called `name`: the root with
/// the segments of the name behind it.
pub fn get_export_path(root: &[u8], name: &[u8]) -> (r: Result<Vec<u8>, PathError>)
    ensures
        r is Ok,
        r->Ok_0@ == join_path(root@, segments(name@)),
{
    let parts = split_pieces(Separator::Slash, name);
    let mut path: Vec<u8> = slice_to_vec(root);
    let mut i: usize = 0;
    let ghost segs = views(parts@);
    assert(segs.take(0) =~= Seq::<Seq<u8>>::empty());
    while i < parts.len()
        invariant
            i <= parts@.len(),
            segs == views(parts@),
            path@ == join_path(root@, segs.take(i as int)),
        decreases parts@.len() - i,
    {
        let ghost before = path@;
        if !(path.len() > 0 && path[path.len() - 1] == SLASH) {
            path.push(SLASH);
        }
        path.extend_from_slice(parts[i].as_slice());
        proof {
            let next = segs.take(i + 1);
            assert(next.drop_last() =~= segs.take(i as int));
            assert(next.last() == parts@[i as int]@);
            assert(path@ =~= crate::storage::join_one(before, next.last()));
        }
        i += 1;
    }
    assert(segs.take(i as int) =~= segs);
    Ok(path)
}

} // verus!
