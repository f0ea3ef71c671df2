//! The canonical byte format for backup containers.
//!
//! A container is a schema-versioned record: metadata about the backup
//! followed by the list of key entries. The encoding is deterministic and
//! fixed by the specification functions below: integers are little-endian,
//! strings are length-prefixed UTF-8, byte fields are length-prefixed raw
//! bytes, and optional fields carry a one-byte presence tag. Decoding accepts
//! exactly what encoding produces, plus two allowances for containers written
//! by future versions: a schema version no newer than [`BACKUP_VERSION`] is
//! required, and bytes after the known fields are ignored.
//!
//! Two policies the schema leaves open are fixed here: `key_count` in the
//! metadata is carried as plain data and never checked against the number of
//! entries (imports go by the entries actually present), and the entry list
//! may mention one name twice (imports process entries strictly in order).
//!
//! This byte layout is this library's own and is the only one it reads:
//! container payloads produced by any other serialization of the schema do
//! not decode here and fail as a schema failure.

use vstd::bytes::*;
use vstd::prelude::*;
use vstd::slice::{slice_index_get, slice_subrange, slice_to_vec};
use vstd::utf8::*;

use crate::error::SkmError;

verus! {

/// The newest container schema this library writes and reads.
pub const BACKUP_VERSION: u32 = 1;

/// Who made a backup, when, and of how many keys.
pub struct BackupMetadata {
    pub version: u32,
    /// Seconds since the Unix epoch.
    pub created_at: u64,
    pub hostname: String,
    pub username: String,
    pub key_count: u64,
    pub description: Option<String>,
}

/// One key inside a container: the identity and whichever halves were backed
/// up. The `key_type` is carried as its display label.
pub struct BackupEntry {
    pub name: String,
    pub key_type: String,
    pub comment: Option<String>,
    pub private_key: Option<Vec<u8>>,
    pub public_key: Option<Vec<u8>>,
}

/// A whole container: metadata plus entries.
pub struct BackupData {
    pub metadata: BackupMetadata,
    pub keys: Vec<BackupEntry>,
}

/// Mathematical image of [`BackupMetadata`].
#[verifier::ext_equal]
pub struct MetadataView {
    pub version: u32,
    pub created_at: u64,
    pub hostname: Seq<char>,
    pub username: Seq<char>,
    pub key_count: u64,
    pub description: Option<Seq<char>>,
}

/// Mathematical image of [`BackupEntry`].
#[verifier::ext_equal]
pub struct EntryView {
    pub name: Seq<char>,
    pub key_type: Seq<char>,
    pub comment: Option<Seq<char>>,
    pub private_key: Option<Seq<u8>>,
    pub public_key: Option<Seq<u8>>,
}

/// Mathematical image of [`BackupData`].
#[verifier::ext_equal]
pub struct ContainerView {
    pub metadata: MetadataView,
    pub keys: Seq<EntryView>,
}

impl View for BackupMetadata {
    type V = MetadataView;

    open spec fn view(&self) -> MetadataView {
        MetadataView {
            version: self.version,
            created_at: self.created_at,
            hostname: self.hostname@,
            username: self.username@,
            key_count: self.key_count,
            description: match self.description {
                Option::Some(d) => Option::Some(d@),
                Option::None => Option::None,
            },
        }
    }
}

impl View for BackupEntry {
    type V = EntryView;

    open spec fn view(&self) -> EntryView {
        EntryView {
            name: self.name@,
            key_type: self.key_type@,
            comment: match self.comment {
                Option::Some(c) => Option::Some(c@),
                Option::None => Option::None,
            },
            private_key: match self.private_key {
                Option::Some(ref b) => Option::Some(b@),
                Option::None => Option::None,
            },
            public_key: match self.public_key {
                Option::Some(ref b) => Option::Some(b@),
                Option::None => Option::None,
            },
        }
    }
}

/// The views of a list of entries.
pub open spec fn entries_view(keys: Seq<BackupEntry>) -> Seq<EntryView> {
    keys.map_values(|e: BackupEntry| e@)
}

impl View for BackupData {
    type V = ContainerView;

    open spec fn view(&self) -> ContainerView {
        ContainerView { metadata: self.metadata@, keys: entries_view(self.keys@) }
    }
}

/// A length-prefixed byte field.
pub open spec fn spec_enc_bytes(b: Seq<u8>) -> Seq<u8> {
    spec_u64_to_le_bytes(b.len() as u64) + b
}

/// A length-prefixed UTF-8 string field.
pub open spec fn spec_enc_str(s: Seq<char>) -> Seq<u8> {
    spec_enc_bytes(encode_utf8(s))
}

/// An optional string field: a presence tag, then the field if present.
pub open spec fn spec_enc_opt_str(s: Option<Seq<char>>) -> Seq<u8> {
    match s {
        Option::Some(x) => seq![1u8] + spec_enc_str(x),
        Option::None => seq![0u8],
    }
}

/// An optional byte field: a presence tag, then the field if present.
pub open spec fn spec_enc_opt_bytes(b: Option<Seq<u8>>) -> Seq<u8> {
    match b {
        Option::Some(x) => seq![1u8] + spec_enc_bytes(x),
        Option::None => seq![0u8],
    }
}

/// One encoded entry: name, type label, comment, private half, public half.
pub open spec fn spec_enc_entry(e: EntryView) -> Seq<u8> {
    spec_enc_str(e.name) + spec_enc_str(e.key_type) + spec_enc_opt_str(e.comment)
        + spec_enc_opt_bytes(e.private_key) + spec_enc_opt_bytes(e.public_key)
}

/// The encoded entries, in order.
pub open spec fn spec_enc_entries(es: Seq<EntryView>) -> Seq<u8>
    decreases es.len(),
{
    if es.len() == 0 {
        Seq::empty()
    } else {
        spec_enc_entry(es[0]) + spec_enc_entries(es.drop_first())
    }
}

/// The encoded metadata block.
pub open spec fn spec_enc_metadata(m: MetadataView) -> Seq<u8> {
    spec_u32_to_le_bytes(m.version) + spec_u64_to_le_bytes(m.created_at) + spec_enc_str(m.hostname)
        + spec_enc_str(m.username) + spec_u64_to_le_bytes(m.key_count) + spec_enc_opt_str(
        m.description,
    )
}

/// The canonical encoding of a whole container.
pub open spec fn spec_encode(c: ContainerView) -> Seq<u8> {
    spec_enc_metadata(c.metadata) + spec_u64_to_le_bytes(c.keys.len() as u64) + spec_enc_entries(
        c.keys,
    )
}

/// Encoding one more entry extends the encoding of the ones before it.
proof fn lemma_enc_entries_push(es: Seq<EntryView>, e: EntryView)
    ensures
        spec_enc_entries(es.push(e)) == spec_enc_entries(es) + spec_enc_entry(e),
    decreases es.len(),
{
    if es.len() == 0 {
        assert(es.push(e).drop_first() =~= es);
        assert(spec_enc_entries(es.push(e)) =~= spec_enc_entries(es) + spec_enc_entry(e));
    } else {
        assert(es.push(e).drop_first() =~= es.drop_first().push(e));
        lemma_enc_entries_push(es.drop_first(), e);
        assert(spec_enc_entries(es.push(e)) =~= spec_enc_entries(es) + spec_enc_entry(e));
    }
}

/// Append a little-endian `u64`.
fn push_u64(out: &mut Vec<u8>, x: u64)
    ensures
        final(out)@ == old(out)@ + spec_u64_to_le_bytes(x),
{
    let mut b = u64_to_le_bytes(x);
    out.append(&mut b);
}

/// Append a little-endian `u32`.
fn push_u32(out: &mut Vec<u8>, x: u32)
    ensures
        final(out)@ == old(out)@ + spec_u32_to_le_bytes(x),
{
    let mut b = u32_to_le_bytes(x);
    out.append(&mut b);
}

/// Append a length-prefixed byte field.
fn push_bytes(out: &mut Vec<u8>, b: &[u8])
    ensures
        final(out)@ == old(out)@ + spec_enc_bytes(b@),
{
    let n = b.len();
    push_u64(out, n as u64);
    let mut i: usize = 0;
    while i < n
        invariant
            i <= n,
            n == b@.len(),
            out@ == old(out)@ + spec_u64_to_le_bytes(n as u64) + b@.take(i as int),
        decreases n - i,
    {
        out.push(*slice_index_get(b, i));
        proof {
            assert(b@.take(i + 1 as int) =~= b@.take(i as int).push(b@[i as int]));
            assert(out@ =~= old(out)@ + spec_u64_to_le_bytes(n as u64) + b@.take(i + 1 as int));
        }
        i += 1;
    }
    proof {
        assert(b@.take(n as int) =~= b@);
        assert(out@ =~= old(out)@ + spec_enc_bytes(b@));
    }
}

/// Append a length-prefixed UTF-8 string field.
fn push_str(out: &mut Vec<u8>, s: &str)
    ensures
        final(out)@ == old(out)@ + spec_enc_str(s@),
{
    push_bytes(out, s.as_bytes());
}

/// Append an optional string field.
fn push_opt_str(out: &mut Vec<u8>, s: &Option<String>)
    ensures
        final(out)@ == old(out)@ + spec_enc_opt_str(
            match s {
                Option::Some(x) => Option::Some(x@),
                Option::None => Option::None::<Seq<char>>,
            },
        ),
{
    match s {
        Option::Some(x) => {
            out.push(1u8);
            proof {
                assert(out@ =~= old(out)@ + seq![1u8]);
            }
            push_str(out, x.as_str());
            proof {
                assert(out@ =~= old(out)@ + (seq![1u8] + spec_enc_str(x@)));
            }
        },
        Option::None => {
            out.push(0u8);
            proof {
                assert(out@ =~= old(out)@ + seq![0u8]);
            }
        },
    }
}

/// Append an optional byte field.
fn push_opt_bytes(out: &mut Vec<u8>, b: &Option<Vec<u8>>)
    ensures
        final(out)@ == old(out)@ + spec_enc_opt_bytes(
            match b {
                Option::Some(x) => Option::Some(x@),
                Option::None => Option::None::<Seq<u8>>,
            },
        ),
{
    match b {
        Option::Some(x) => {
            out.push(1u8);
            proof {
                assert(out@ =~= old(out)@ + seq![1u8]);
            }
            push_bytes(out, x.as_slice());
            proof {
                assert(out@ =~= old(out)@ + (seq![1u8] + spec_enc_bytes(x@)));
            }
        },
        Option::None => {
            out.push(0u8);
            proof {
                assert(out@ =~= old(out)@ + seq![0u8]);
            }
        },
    }
}

/// Append one encoded entry.
fn push_entry(out: &mut Vec<u8>, e: &BackupEntry)
    ensures
        final(out)@ == old(out)@ + spec_enc_entry(e@),
{
    push_str(out, e.name.as_str());
    push_str(out, e.key_type.as_str());
    push_opt_str(out, &e.comment);
    push_opt_bytes(out, &e.private_key);
    push_opt_bytes(out, &e.public_key);
    proof {
        assert(out@ =~= old(out)@ + spec_enc_entry(e@));
    }
}

/// The string fits a length prefix.
pub open spec fn str_fits(s: Seq<char>) -> bool {
    encode_utf8(s).len() <= u64::MAX
}

/// The optional string fits a length prefix.
pub open spec fn opt_str_fits(s: Option<Seq<char>>) -> bool {
    s matches Some(x) ==> str_fits(x)
}

/// The optional byte field fits a length prefix.
pub open spec fn opt_bytes_fits(b: Option<Seq<u8>>) -> bool {
    b matches Some(x) ==> x.len() <= u64::MAX
}

/// Every field of the entry fits its length prefix.
pub open spec fn entry_fits(e: EntryView) -> bool {
    &&& str_fits(e.name)
    &&& str_fits(e.key_type)
    &&& opt_str_fits(e.comment)
    &&& opt_bytes_fits(e.private_key)
    &&& opt_bytes_fits(e.public_key)
}

/// Every field of the container fits its length prefix. Values built from
/// in-memory strings and vectors always do.
pub open spec fn container_fits(c: ContainerView) -> bool {
    &&& str_fits(c.metadata.hostname)
    &&& str_fits(c.metadata.username)
    &&& opt_str_fits(c.metadata.description)
    &&& c.keys.len() <= u64::MAX
    &&& forall|i: int| 0 <= i < c.keys.len() ==> entry_fits(#[trigger] c.keys[i])
}

/// What decoding a little-endian `u32` from the front of `b` yields.
pub open spec fn spec_dec_u32(b: Seq<u8>) -> Option<(u32, Seq<u8>)> {
    if b.len() >= 4 {
        Option::Some((spec_u32_from_le_bytes(b.take(4)), b.skip(4)))
    } else {
        Option::None
    }
}

/// What decoding a little-endian `u64` from the front of `b` yields.
pub open spec fn spec_dec_u64(b: Seq<u8>) -> Option<(u64, Seq<u8>)> {
    if b.len() >= 8 {
        Option::Some((spec_u64_from_le_bytes(b.take(8)), b.skip(8)))
    } else {
        Option::None
    }
}

/// What decoding a length-prefixed byte field yields.
pub open spec fn spec_dec_bytes(b: Seq<u8>) -> Option<(Seq<u8>, Seq<u8>)> {
    match spec_dec_u64(b) {
        Option::Some((n, rest)) => if n <= rest.len() {
            Option::Some((rest.take(n as int), rest.skip(n as int)))
        } else {
            Option::None
        },
        Option::None => Option::None,
    }
}

/// What decoding a length-prefixed UTF-8 string field yields.
pub open spec fn spec_dec_str(b: Seq<u8>) -> Option<(Seq<char>, Seq<u8>)> {
    match spec_dec_bytes(b) {
        Option::Some((bs, rest)) => if valid_utf8(bs) {
            Option::Some((decode_utf8(bs), rest))
        } else {
            Option::None
        },
        Option::None => Option::None,
    }
}

/// What decoding an optional string field yields.
pub open spec fn spec_dec_opt_str(b: Seq<u8>) -> Option<(Option<Seq<char>>, Seq<u8>)> {
    if b.len() == 0 {
        Option::None
    } else if b[0] == 0u8 {
        Option::Some((Option::None, b.drop_first()))
    } else if b[0] == 1u8 {
        match spec_dec_str(b.drop_first()) {
            Option::Some((s, rest)) => Option::Some((Option::Some(s), rest)),
            Option::None => Option::None,
        }
    } else {
        Option::None
    }
}

/// What decoding an optional byte field yields.
pub open spec fn spec_dec_opt_bytes(b: Seq<u8>) -> Option<(Option<Seq<u8>>, Seq<u8>)> {
    if b.len() == 0 {
        Option::None
    } else if b[0] == 0u8 {
        Option::Some((Option::None, b.drop_first()))
    } else if b[0] == 1u8 {
        match spec_dec_bytes(b.drop_first()) {
            Option::Some((bs, rest)) => Option::Some((Option::Some(bs), rest)),
            Option::None => Option::None,
        }
    } else {
        Option::None
    }
}

/// What decoding one entry yields.
pub open spec fn spec_dec_entry(b: Seq<u8>) -> Option<(EntryView, Seq<u8>)> {
    match spec_dec_str(b) {
        Option::None => Option::None,
        Option::Some((name, b1)) => match spec_dec_str(b1) {
            Option::None => Option::None,
            Option::Some((key_type, b2)) => match spec_dec_opt_str(b2) {
                Option::None => Option::None,
                Option::Some((comment, b3)) => match spec_dec_opt_bytes(b3) {
                    Option::None => Option::None,
                    Option::Some((private_key, b4)) => match spec_dec_opt_bytes(b4) {
                        Option::None => Option::None,
                        Option::Some((public_key, b5)) => Option::Some(
                            (EntryView { name, key_type, comment, private_key, public_key }, b5),
                        ),
                    },
                },
            },
        },
    }
}

/// What decoding `n` entries in a row yields.
pub open spec fn spec_dec_entries(b: Seq<u8>, n: nat) -> Option<(Seq<EntryView>, Seq<u8>)>
    decreases n,
{
    if n == 0 {
        Option::Some((Seq::empty(), b))
    } else {
        match spec_dec_entry(b) {
            Option::None => Option::None,
            Option::Some((e, rest)) => match spec_dec_entries(rest, (n - 1) as nat) {
                Option::None => Option::None,
                Option::Some((es, rest2)) => Option::Some((seq![e] + es, rest2)),
            },
        }
    }
}

/// What decoding the metadata block yields.
pub open spec fn spec_dec_metadata(b: Seq<u8>) -> Option<(MetadataView, Seq<u8>)> {
    match spec_dec_u32(b) {
        Option::None => Option::None,
        Option::Some((version, b1)) => match spec_dec_u64(b1) {
            Option::None => Option::None,
            Option::Some((created_at, b2)) => match spec_dec_str(b2) {
                Option::None => Option::None,
                Option::Some((hostname, b3)) => match spec_dec_str(b3) {
                    Option::None => Option::None,
                    Option::Some((username, b4)) => match spec_dec_u64(b4) {
                        Option::None => Option::None,
                        Option::Some((key_count, b5)) => match spec_dec_opt_str(b5) {
                            Option::None => Option::None,
                            Option::Some((description, b6)) => Option::Some(
                                (
                                    MetadataView {
                                        version,
                                        created_at,
                                        hostname,
                                        username,
                                        key_count,
                                        description,
                                    },
                                    b6,
                                ),
                            ),
                        },
                    },
                },
            },
        },
    }
}

/// What decoding a whole container yields: the metadata, a version no newer
/// than [`BACKUP_VERSION`], and the declared number of entries. Bytes after
/// the entries are ignored so that containers written by future versions,
/// with extra trailing fields, still decode.
pub open spec fn spec_decode(b: Seq<u8>) -> Option<ContainerView> {
    match spec_dec_metadata(b) {
        Option::None => Option::None,
        Option::Some((m, b1)) => if m.version > BACKUP_VERSION {
            Option::None
        } else {
            match spec_dec_u64(b1) {
                Option::None => Option::None,
                Option::Some((count, b2)) => match spec_dec_entries(b2, count as nat) {
                    Option::None => Option::None,
                    Option::Some((es, _rest)) => Option::Some(
                        ContainerView { metadata: m, keys: es },
                    ),
                },
            }
        },
    }
}

/// Relies on `alloc::string::String::from_utf8`: succeeds exactly on valid
/// UTF-8 input and returns the string those bytes spell.
#[verifier::external_body]
fn bytes_to_string(v: Vec<u8>) -> (r: Option<String>)
    ensures
        r is Some <==> valid_utf8(v@),
        r matches Some(s) ==> s@ == decode_utf8(v@),
{
    String::from_utf8(v).ok()
}

/// Read a little-endian `u32` at `pos`.
fn read_u32(b: &[u8], pos: usize) -> (r: Option<(u32, usize)>)
    requires
        pos <= b@.len(),
    ensures
        r matches Some(p) ==> pos <= p.1 <= b@.len() && spec_dec_u32(b@.skip(pos as int))
            == Option::Some((p.0, b@.skip(p.1 as int))),
        r is None ==> spec_dec_u32(b@.skip(pos as int)) is None,
{
    if b.len() - pos >= 4 {
        let s = slice_subrange(b, pos, pos + 4);
        let x = u32_from_le_bytes(s);
        proof {
            assert(b@.skip(pos as int).take(4) =~= b@.subrange(pos as int, pos as int + 4));
            assert(b@.skip(pos as int).skip(4) =~= b@.skip(pos as int + 4));
        }
        Some((x, pos + 4))
    } else {
        None
    }
}

/// Read a little-endian `u64` at `pos`.
fn read_u64(b: &[u8], pos: usize) -> (r: Option<(u64, usize)>)
    requires
        pos <= b@.len(),
    ensures
        r matches Some(p) ==> pos <= p.1 <= b@.len() && spec_dec_u64(b@.skip(pos as int))
            == Option::Some((p.0, b@.skip(p.1 as int))),
        r is None ==> spec_dec_u64(b@.skip(pos as int)) is None,
{
    if b.len() - pos >= 8 {
        let s = slice_subrange(b, pos, pos + 8);
        let x = u64_from_le_bytes(s);
        proof {
            assert(b@.skip(pos as int).take(8) =~= b@.subrange(pos as int, pos as int + 8));
            assert(b@.skip(pos as int).skip(8) =~= b@.skip(pos as int + 8));
        }
        Some((x, pos + 8))
    } else {
        None
    }
}

/// Read a length-prefixed byte field at `pos`.
fn read_bytes(b: &[u8], pos: usize) -> (r: Option<(Vec<u8>, usize)>)
    requires
        pos <= b@.len(),
    ensures
        r matches Some(p) ==> pos <= p.1 <= b@.len() && spec_dec_bytes(b@.skip(pos as int))
            == Option::Some((p.0@, b@.skip(p.1 as int))),
        r is None ==> spec_dec_bytes(b@.skip(pos as int)) is None,
{
    match read_u64(b, pos) {
        None => None,
        Some((n, pos1)) => {
            let remaining = b.len() - pos1;
            if n <= remaining as u64 {
                let nn = n as usize;
                let v = slice_to_vec(slice_subrange(b, pos1, pos1 + nn));
                proof {
                    assert(b@.skip(pos1 as int).take(n as int) =~= b@.subrange(
                        pos1 as int,
                        pos1 as int + n,
                    ));
                    assert(b@.skip(pos1 as int).skip(n as int) =~= b@.skip(pos1 as int + n));
                }
                Some((v, pos1 + nn))
            } else {
                None
            }
        },
    }
}

/// Read a length-prefixed UTF-8 string field at `pos`.
fn read_str(b: &[u8], pos: usize) -> (r: Option<(String, usize)>)
    requires
        pos <= b@.len(),
    ensures
        r matches Some(p) ==> pos <= p.1 <= b@.len() && spec_dec_str(b@.skip(pos as int))
            == Option::Some((p.0@, b@.skip(p.1 as int))),
        r is None ==> spec_dec_str(b@.skip(pos as int)) is None,
{
    match read_bytes(b, pos) {
        None => None,
        Some((bs, pos1)) => match bytes_to_string(bs) {
            None => None,
            Some(s) => Some((s, pos1)),
        },
    }
}

/// Read an optional string field at `pos`.
fn read_opt_str(b: &[u8], pos: usize) -> (r: Option<(Option<String>, usize)>)
    requires
        pos <= b@.len(),
    ensures
        r matches Some(p) ==> pos <= p.1 <= b@.len() && spec_dec_opt_str(b@.skip(pos as int))
            == Option::Some(
            (
                match p.0 {
                    Option::Some(s) => Option::Some(s@),
                    Option::None => Option::None::<Seq<char>>,
                },
                b@.skip(p.1 as int),
            ),
        ),
        r is None ==> spec_dec_opt_str(b@.skip(pos as int)) is None,
{
    if pos == b.len() {
        return None;
    }
    let tag = *slice_index_get(b, pos);
    proof {
        assert(b@.skip(pos as int)[0] == b@[pos as int]);
        assert(b@.skip(pos as int).drop_first() =~= b@.skip(pos as int + 1));
    }
    if tag == 0u8 {
        Some((None, pos + 1))
    } else if tag == 1u8 {
        match read_str(b, pos + 1) {
            None => None,
            Some((s, pos1)) => Some((Some(s), pos1)),
        }
    } else {
        None
    }
}

/// Read an optional byte field at `pos`.
fn read_opt_bytes(b: &[u8], pos: usize) -> (r: Option<(Option<Vec<u8>>, usize)>)
    requires
        pos <= b@.len(),
    ensures
        r matches Some(p) ==> pos <= p.1 <= b@.len() && spec_dec_opt_bytes(b@.skip(pos as int))
            == Option::Some(
            (
                match p.0 {
                    Option::Some(ref v) => Option::Some(v@),
                    Option::None => Option::None::<Seq<u8>>,
                },
                b@.skip(p.1 as int),
            ),
        ),
        r is None ==> spec_dec_opt_bytes(b@.skip(pos as int)) is None,
{
    if pos == b.len() {
        return None;
    }
    let tag = *slice_index_get(b, pos);
    proof {
        assert(b@.skip(pos as int)[0] == b@[pos as int]);
        assert(b@.skip(pos as int).drop_first() =~= b@.skip(pos as int + 1));
    }
    if tag == 0u8 {
        Some((None, pos + 1))
    } else if tag == 1u8 {
        match read_bytes(b, pos + 1) {
            None => None,
            Some((v, pos1)) => Some((Some(v), pos1)),
        }
    } else {
        None
    }
}

/// Read one entry at `pos`.
fn read_entry(b: &[u8], pos: usize) -> (r: Option<(BackupEntry, usize)>)
    requires
        pos <= b@.len(),
    ensures
        r matches Some(p) ==> pos <= p.1 <= b@.len() && spec_dec_entry(b@.skip(pos as int))
            == Option::Some((p.0@, b@.skip(p.1 as int))),
        r is None ==> spec_dec_entry(b@.skip(pos as int)) is None,
{
    match read_str(b, pos) {
        None => None,
        Some((name, pos1)) => match read_str(b, pos1) {
            None => None,
            Some((key_type, pos2)) => match read_opt_str(b, pos2) {
                None => None,
                Some((comment, pos3)) => match read_opt_bytes(b, pos3) {
                    None => None,
                    Some((private_key, pos4)) => match read_opt_bytes(b, pos4) {
                        None => None,
                        Some((public_key, pos5)) => {
                            let e = BackupEntry { name, key_type, comment, private_key, public_key };
                            Some((e, pos5))
                        },
                    },
                },
            },
        },
    }
}

/// Read `n` entries in a row starting at `pos`.
fn read_entries(b: &[u8], pos: usize, n: u64) -> (r: Option<(Vec<BackupEntry>, usize)>)
    requires
        pos <= b@.len(),
    ensures
        r matches Some(p) ==> pos <= p.1 <= b@.len() && spec_dec_entries(
            b@.skip(pos as int),
            n as nat,
        ) == Option::Some((entries_view(p.0@), b@.skip(p.1 as int))),
        r is None ==> spec_dec_entries(b@.skip(pos as int), n as nat) is None,
    decreases n,
{
    if n == 0 {
        let v: Vec<BackupEntry> = Vec::new();
        proof {
            assert(entries_view(v@) =~= Seq::<EntryView>::empty());
        }
        Some((v, pos))
    } else {
        match read_entry(b, pos) {
            None => None,
            Some((e, pos1)) => match read_entries(b, pos1, n - 1) {
                None => None,
                Some((mut rest, pos2)) => {
                    let ghost rest_views = entries_view(rest@);
                    rest.insert(0, e);
                    proof {
                        assert(entries_view(rest@) =~= seq![e@] + rest_views);
                    }
                    Some((rest, pos2))
                },
            },
        }
    }
}

/// Parse a container out of its bytes. Fails, with a schema failure, exactly
/// when the bytes do not decode: they are cut short, a field is not valid
/// UTF-8, a presence tag is unknown, or the version is newer than
/// [`BACKUP_VERSION`].
pub fn decode(bytes: &[u8]) -> (r: Result<BackupData, SkmError>)
    ensures
        spec_decode(bytes@) matches Some(v) ==> (r matches Ok(d) && d@ == v),
        spec_decode(bytes@) is None ==> (r matches Err(e) && e is ImportExport),
{
    proof {
        assert(bytes@.skip(0) =~= bytes@);
    }
    let r = decode_inner(bytes);
    match r {
        Some(d) => Ok(d),
        None => Err(SkmError::ImportExport(String::from_str("Invalid backup format"))),
    }
}

/// The body of [`decode`], with failure as `None`.
fn decode_inner(bytes: &[u8]) -> (r: Option<BackupData>)
    ensures
        r matches Some(d) ==> spec_decode(bytes@) == Option::Some(d@),
        r is None ==> spec_decode(bytes@) is None,
{
    proof {
        assert(bytes@.skip(0) =~= bytes@);
    }
    match read_u32(bytes, 0) {
        None => None,
        Some((version, pos1)) => match read_u64(bytes, pos1) {
            None => None,
            Some((created_at, pos2)) => match read_str(bytes, pos2) {
                None => None,
                Some((hostname, pos3)) => match read_str(bytes, pos3) {
                    None => None,
                    Some((username, pos4)) => match read_u64(bytes, pos4) {
                        None => None,
                        Some((key_count, pos5)) => match read_opt_str(bytes, pos5) {
                            None => None,
                            Some((description, pos6)) => {
                                if version > BACKUP_VERSION {
                                    return None;
                                }
                                match read_u64(bytes, pos6) {
                                    None => None,
                                    Some((count, pos7)) => match read_entries(bytes, pos7, count) {
                                        None => None,
                                        Some((keys, _pos8)) => {
                                            let metadata = BackupMetadata {
                                                version,
                                                created_at,
                                                hostname,
                                                username,
                                                key_count,
                                                description,
                                            };
                                            Some(BackupData { metadata, keys })
                                        },
                                    },
                                }
                            },
                        },
                    },
                },
            },
        },
    }
}

/// Serialize a container to its canonical bytes.
pub fn encode(data: &BackupData) -> (r: Vec<u8>)
    ensures
        r@ == spec_encode(data@),
{
    let mut out: Vec<u8> = Vec::new();
    push_u32(&mut out, data.metadata.version);
    push_u64(&mut out, data.metadata.created_at);
    push_str(&mut out, data.metadata.hostname.as_str());
    push_str(&mut out, data.metadata.username.as_str());
    push_u64(&mut out, data.metadata.key_count);
    push_opt_str(&mut out, &data.metadata.description);
    proof {
        assert(out@ =~= spec_enc_metadata(data.metadata@));
    }
    let n = data.keys.len();
    push_u64(&mut out, n as u64);
    let ghost head = spec_enc_metadata(data.metadata@) + spec_u64_to_le_bytes(n as u64);
    let mut i: usize = 0;
    while i < n
        invariant
            i <= n,
            n == data.keys@.len(),
            out@ == head + spec_enc_entries(entries_view(data.keys@).take(i as int)),
        decreases n - i,
    {
        push_entry(&mut out, &data.keys[i]);
        proof {
            let es = entries_view(data.keys@);
            assert(es.take(i + 1 as int) =~= es.take(i as int).push(es[i as int]));
            lemma_enc_entries_push(es.take(i as int), es[i as int]);
            assert(out@ =~= head + spec_enc_entries(es.take(i + 1 as int)));
        }
        i += 1;
    }
    proof {
        assert(entries_view(data.keys@).take(n as int) =~= entries_view(data.keys@));
        assert(out@ =~= spec_encode(data@));
    }
    out
}


/// Decoding undoes encoding, field kind by field kind: a `u32`.
proof fn lemma_dec_enc_u32(x: u32, rest: Seq<u8>)
    ensures
        spec_dec_u32(spec_u32_to_le_bytes(x) + rest) == Option::Some((x, rest)),
{
    lemma_auto_spec_u32_to_from_le_bytes();
    assert((spec_u32_to_le_bytes(x) + rest).take(4) =~= spec_u32_to_le_bytes(x));
    assert((spec_u32_to_le_bytes(x) + rest).skip(4) =~= rest);
}

/// Decoding undoes encoding: a `u64`.
proof fn lemma_dec_enc_u64(x: u64, rest: Seq<u8>)
    ensures
        spec_dec_u64(spec_u64_to_le_bytes(x) + rest) == Option::Some((x, rest)),
{
    lemma_auto_spec_u64_to_from_le_bytes();
    assert((spec_u64_to_le_bytes(x) + rest).take(8) =~= spec_u64_to_le_bytes(x));
    assert((spec_u64_to_le_bytes(x) + rest).skip(8) =~= rest);
}

/// Decoding undoes encoding: a length-prefixed byte field.
proof fn lemma_dec_enc_bytes(bs: Seq<u8>, rest: Seq<u8>)
    requires
        bs.len() <= u64::MAX,
    ensures
        spec_dec_bytes(spec_enc_bytes(bs) + rest) == Option::Some((bs, rest)),
{
    let n = bs.len() as u64;
    assert(spec_enc_bytes(bs) + rest =~= spec_u64_to_le_bytes(n) + (bs + rest));
    lemma_dec_enc_u64(n, bs + rest);
    assert((bs + rest).take(n as int) =~= bs);
    assert((bs + rest).skip(n as int) =~= rest);
}

/// Decoding undoes encoding: a string field.
proof fn lemma_dec_enc_str(s: Seq<char>, rest: Seq<u8>)
    requires
        str_fits(s),
    ensures
        spec_dec_str(spec_enc_str(s) + rest) == Option::Some((s, rest)),
{
    encode_utf8_valid_utf8(s);
    encode_utf8_decode_utf8(s);
    lemma_dec_enc_bytes(encode_utf8(s), rest);
}

/// Decoding undoes encoding: an optional string field.
proof fn lemma_dec_enc_opt_str(s: Option<Seq<char>>, rest: Seq<u8>)
    requires
        opt_str_fits(s),
    ensures
        spec_dec_opt_str(spec_enc_opt_str(s) + rest) == Option::Some((s, rest)),
{
    match s {
        Option::Some(x) => {
            let b = spec_enc_opt_str(s) + rest;
            assert(b[0] == 1u8);
            assert(b.drop_first() =~= spec_enc_str(x) + rest);
            lemma_dec_enc_str(x, rest);
        },
        Option::None => {
            let b = spec_enc_opt_str(s) + rest;
            assert(b[0] == 0u8);
            assert(b.drop_first() =~= rest);
        },
    }
}

/// Decoding undoes encoding: an optional byte field.
proof fn lemma_dec_enc_opt_bytes(v: Option<Seq<u8>>, rest: Seq<u8>)
    requires
        opt_bytes_fits(v),
    ensures
        spec_dec_opt_bytes(spec_enc_opt_bytes(v) + rest) == Option::Some((v, rest)),
{
    match v {
        Option::Some(x) => {
            let b = spec_enc_opt_bytes(v) + rest;
            assert(b[0] == 1u8);
            assert(b.drop_first() =~= spec_enc_bytes(x) + rest);
            lemma_dec_enc_bytes(x, rest);
        },
        Option::None => {
            let b = spec_enc_opt_bytes(v) + rest;
            assert(b[0] == 0u8);
            assert(b.drop_first() =~= rest);
        },
    }
}

/// Decoding undoes encoding: one entry.
proof fn lemma_dec_enc_entry(e: EntryView, rest: Seq<u8>)
    requires
        entry_fits(e),
    ensures
        spec_dec_entry(spec_enc_entry(e) + rest) == Option::Some((e, rest)),
{
    let r4 = spec_enc_opt_bytes(e.public_key) + rest;
    let r3 = spec_enc_opt_bytes(e.private_key) + r4;
    let r2 = spec_enc_opt_str(e.comment) + r3;
    let r1 = spec_enc_str(e.key_type) + r2;
    assert(spec_enc_entry(e) + rest =~= spec_enc_str(e.name) + r1);
    lemma_dec_enc_str(e.name, r1);
    assert(r1 =~= spec_enc_str(e.key_type) + r2);
    lemma_dec_enc_str(e.key_type, r2);
    lemma_dec_enc_opt_str(e.comment, r3);
    lemma_dec_enc_opt_bytes(e.private_key, r4);
    lemma_dec_enc_opt_bytes(e.public_key, rest);
}

/// Decoding undoes encoding: a run of entries.
#[verifier::rlimit(50)]
proof fn lemma_dec_enc_entries(es: Seq<EntryView>, rest: Seq<u8>)
    requires
        forall|i: int| 0 <= i < es.len() ==> entry_fits(#[trigger] es[i]),
    ensures
        spec_dec_entries(spec_enc_entries(es) + rest, es.len()) == Option::Some((es, rest)),
    decreases es.len(),
{
    if es.len() == 0 {
        assert(spec_enc_entries(es) + rest =~= rest);
        assert(spec_dec_entries(rest, 0) == Option::<(Seq<EntryView>, Seq<u8>)>::Some((
            Seq::empty(),
            rest,
        )));
        assert(es =~= Seq::<EntryView>::empty());
    } else {
        let tail_enc = spec_enc_entries(es.drop_first()) + rest;
        assert(spec_enc_entries(es) + rest =~= spec_enc_entry(es[0]) + tail_enc);
        lemma_dec_enc_entry(es[0], tail_enc);
        assert(forall|i: int|
            0 <= i < es.drop_first().len() ==> entry_fits(#[trigger] es.drop_first()[i]));
        lemma_dec_enc_entries(es.drop_first(), rest);
        assert(seq![es[0]] + es.drop_first() =~= es);
    }
}

/// Decoding undoes encoding: the metadata block.
proof fn lemma_dec_enc_metadata(m: MetadataView, rest: Seq<u8>)
    requires
        str_fits(m.hostname),
        str_fits(m.username),
        opt_str_fits(m.description),
    ensures
        spec_dec_metadata(spec_enc_metadata(m) + rest) == Option::Some((m, rest)),
{
    let r5 = spec_enc_opt_str(m.description) + rest;
    let r4 = spec_u64_to_le_bytes(m.key_count) + r5;
    let r3 = spec_enc_str(m.username) + r4;
    let r2 = spec_enc_str(m.hostname) + r3;
    let r1 = spec_u64_to_le_bytes(m.created_at) + r2;
    assert(spec_enc_metadata(m) + rest =~= spec_u32_to_le_bytes(m.version) + r1);
    lemma_dec_enc_u32(m.version, r1);
    assert(r1 =~= spec_u64_to_le_bytes(m.created_at) + r2);
    lemma_dec_enc_u64(m.created_at, r2);
    lemma_dec_enc_str(m.hostname, r3);
    lemma_dec_enc_str(m.username, r4);
    lemma_dec_enc_u64(m.key_count, r5);
    lemma_dec_enc_opt_str(m.description, rest);
}

/// The codec round trip: any container whose fields fit their length
/// prefixes, carrying a schema version this library supports, decodes from
/// its own encoding unchanged.
pub proof fn lemma_decode_encode(c: ContainerView)
    requires
        container_fits(c),
        c.metadata.version <= BACKUP_VERSION,
    ensures
        spec_decode(spec_encode(c)) == Option::Some(c),
{
    let count_enc = spec_u64_to_le_bytes(c.keys.len() as u64);
    let entries_enc = spec_enc_entries(c.keys);
    let after_meta = count_enc + entries_enc;
    assert(spec_encode(c) =~= spec_enc_metadata(c.metadata) + after_meta);
    lemma_dec_enc_metadata(c.metadata, after_meta);
    assert(after_meta =~= count_enc + (entries_enc + Seq::<u8>::empty()));
    lemma_dec_enc_u64(c.keys.len() as u64, entries_enc + Seq::<u8>::empty());
    assert(entries_enc + Seq::<u8>::empty() =~= spec_enc_entries(c.keys) + Seq::<u8>::empty());
    lemma_dec_enc_entries(c.keys, Seq::<u8>::empty());
}

} // verus!
