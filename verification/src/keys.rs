//! Key records and the pure classification of key files.
//!
//! A [`KeyRecord`] is the library's view of one key pair: its identity, its
//! kind, and whichever of its two halves are present, as plain bytes. The
//! surrounding application reads files into records and writes records back
//! to files; everything decided about a record is decided here.

use vstd::prelude::*;

use crate::error::SkmError;
use crate::text::{contains_sub, str_contains, views_of};

verus! {

/// An ASCII whitespace separator.
pub open spec fn is_space(c: char) -> bool {
    c == ' ' || c == '\t' || c == '\n' || c == '\r'
}

/// Separator test on one character.
pub fn is_space_char(c: char) -> (r: bool)
    ensures
        r == is_space(c),
{
    c == ' ' || c == '\t' || c == '\n' || c == '\r'
}

/// Length of the maximal run of non-separator characters at the front of `s`.
pub open spec fn word_len(s: Seq<char>) -> nat
    decreases s.len(),
{
    if s.len() == 0 || is_space(s[0]) {
        0
    } else {
        (1 + word_len(s.drop_first())) as nat
    }
}

/// The shape of the front word: it is within bounds, free of separators, and
/// ends at a separator or at the end of the string.
proof fn lemma_word_len(s: Seq<char>)
    ensures
        word_len(s) <= s.len(),
        forall|k: int| 0 <= k < word_len(s) ==> !is_space(s[k]),
        word_len(s) < s.len() ==> is_space(s[word_len(s) as int]),
        s.len() > 0 && !is_space(s[0]) ==> word_len(s) >= 1,
    decreases s.len(),
{
    if s.len() == 0 || is_space(s[0]) {
    } else {
        let rest = s.drop_first();
        lemma_word_len(rest);
        assert forall|k: int| 0 <= k < word_len(s) implies !is_space(s[k]) by {
            if k > 0 {
                assert(rest[k - 1] == s[k]);
            }
        }
        if word_len(s) < s.len() {
            assert(rest[word_len(s) as int - 1] == s[word_len(s) as int]);
        }
    }
}

/// The front word's length is pinned down by the shape `lemma_word_len` gives.
proof fn lemma_word_len_unique(s: Seq<char>, l: int)
    requires
        0 <= l <= s.len(),
        forall|k: int| 0 <= k < l ==> !is_space(s[k]),
        l == s.len() || is_space(s[l]),
    ensures
        word_len(s) == l,
    decreases s.len(),
{
    if l == 0 {
    } else {
        let rest = s.drop_first();
        assert forall|k: int| 0 <= k < l - 1 implies !is_space(rest[k]) by {
            assert(rest[k] == s[k + 1]);
        }
        if l < s.len() {
            assert(rest[l - 1] == s[l]);
        }
        lemma_word_len_unique(rest, l - 1);
    }
}

/// The words of `s`: the maximal runs of non-separator characters, in order.
pub open spec fn spec_tokens(s: Seq<char>) -> Seq<Seq<char>>
    decreases s.len(),
    via spec_tokens_decreases
{
    if s.len() == 0 {
        Seq::empty()
    } else if is_space(s[0]) {
        spec_tokens(s.drop_first())
    } else {
        seq![s.take(word_len(s) as int)] + spec_tokens(s.skip(word_len(s) as int))
    }
}

#[via_fn]
proof fn spec_tokens_decreases(s: Seq<char>) {
    if s.len() > 0 && !is_space(s[0]) {
        lemma_word_len(s);
    }
}

/// Split a string into its whitespace-separated words.
pub fn tokenize(s: &str) -> (r: Vec<String>)
    ensures
        views_of(r@) == spec_tokens(s@),
{
    let n = s.unicode_len();
    let r = tokenize_from(s, 0, n);
    proof {
        assert(s@.skip(0) =~= s@);
    }
    r
}

/// The words of `s` from position `pos` on.
fn tokenize_from(s: &str, pos: usize, n: usize) -> (r: Vec<String>)
    requires
        n == s@.len(),
        pos <= n,
    ensures
        views_of(r@) == spec_tokens(s@.skip(pos as int)),
    decreases n - pos,
{
    let ghost tail = s@.skip(pos as int);
    if pos == n {
        let r: Vec<String> = Vec::new();
        proof {
            assert(views_of(r@) =~= spec_tokens(tail));
        }
        r
    } else if is_space_char(s.get_char(pos)) {
        let r = tokenize_from(s, pos + 1, n);
        proof {
            assert(tail.drop_first() =~= s@.skip(pos as int + 1));
        }
        r
    } else {
        let mut end = pos + 1;
        while end < n && !is_space_char(s.get_char(end))
            invariant
                pos < end <= n,
                n == s@.len(),
                forall|k: int| pos <= k < end ==> !is_space(s@[k]),
            decreases n - end,
        {
            end += 1;
        }
        proof {
            assert forall|k: int| 0 <= k < end - pos implies !is_space(tail[k]) by {
                assert(tail[k] == s@[pos + k]);
            }
            if end < n {
                assert(tail[end - pos] == s@[end as int]);
            }
            lemma_word_len_unique(tail, end - pos);
        }
        let word = s.substring_char(pos, end).to_owned();
        let mut rest = tokenize_from(s, end, n);
        rest.insert(0, word);
        proof {
            assert(tail.take(word_len(tail) as int) =~= s@.subrange(pos as int, end as int));
            assert(tail.skip(word_len(tail) as int) =~= s@.skip(end as int));
            assert(views_of(rest@) =~= seq![word@] + spec_tokens(s@.skip(end as int)));
            assert(views_of(rest@) =~= spec_tokens(tail));
        }
        rest
    }
}

/// The words, joined by single spaces.
pub open spec fn spec_join_spaces(ts: Seq<Seq<char>>) -> Seq<char>
    decreases ts.len(),
{
    if ts.len() == 0 {
        Seq::empty()
    } else if ts.len() == 1 {
        ts[0]
    } else {
        ts[0] + " "@ + spec_join_spaces(ts.drop_first())
    }
}

/// Join the words from position `start` on with single spaces.
pub fn join_tokens_from(tokens: &Vec<String>, start: usize) -> (r: String)
    requires
        start <= tokens@.len(),
    ensures
        r@ == spec_join_spaces(views_of(tokens@).skip(start as int)),
    decreases tokens@.len() - start,
{
    let ghost tail = views_of(tokens@).skip(start as int);
    if start == tokens.len() {
        let r = String::new();
        proof {
            assert(r@ =~= spec_join_spaces(tail));
        }
        r
    } else if start + 1 == tokens.len() {
        let r = tokens[start].clone();
        proof {
            assert(tail[0] == tokens@[start as int]@);
        }
        r
    } else {
        let mut r = tokens[start].clone();
        r.append(" ");
        let rest = join_tokens_from(tokens, start + 1);
        r.append(rest.as_str());
        proof {
            assert(tail[0] == tokens@[start as int]@);
            assert(tail.drop_first() =~= views_of(tokens@).skip(start as int + 1));
        }
        r
    }
}

/// The shortened fingerprint shown for a public key's base64 field: its first
/// sixteen characters followed by an ellipsis.
pub open spec fn spec_fingerprint_of(t: Seq<char>) -> Seq<char> {
    (if t.len() <= 16 {
        t
    } else {
        t.take(16)
    }) + "..."@
}

/// Read the fingerprint preview and the trailing comment out of one public
/// key line of the usual `algorithm base64-data comment...` shape.
pub fn parse_public_key(content: &str) -> (r: (Option<String>, Option<String>))
    ensures
        spec_tokens(content@).len() >= 2 ==> (r.0 matches Some(f) && f@ == spec_fingerprint_of(
            spec_tokens(content@)[1],
        )),
        spec_tokens(content@).len() < 2 ==> r.0 is None && r.1 is None,
        spec_tokens(content@).len() >= 3 ==> (r.1 matches Some(c) && c@ == spec_join_spaces(
            spec_tokens(content@).skip(2),
        )),
        spec_tokens(content@).len() == 2 ==> r.1 is None,
{
    let tokens = tokenize(content);
    if tokens.len() >= 2 {
        let data = &tokens[1];
        let dlen = data.as_str().unicode_len();
        let cut = if dlen <= 16 {
            dlen
        } else {
            16
        };
        let mut fingerprint = data.as_str().substring_char(0, cut).to_owned();
        fingerprint.append("...");
        proof {
            assert(tokens@[1]@ == spec_tokens(content@)[1]);
            if dlen <= 16 {
                assert(data@.subrange(0, cut as int) =~= data@);
            }
        }
        let comment = if tokens.len() >= 3 {
            let c = join_tokens_from(&tokens, 2);
            proof {
                assert(views_of(tokens@).skip(2) =~= spec_tokens(content@).skip(2));
            }
            Some(c)
        } else {
            None
        };
        (Some(fingerprint), comment)
    } else {
        (None, None)
    }
}

/// Rebuild a public key line with a fresh comment, keeping its first two
/// fields; a line with fewer than two fields is not a public key.
pub fn update_comment_line(content: &str, new_comment: &str) -> (r: Result<String, SkmError>)
    ensures
        spec_tokens(content@).len() >= 2 ==> (r matches Ok(s) && s@ == spec_tokens(content@)[0]
            + " "@ + spec_tokens(content@)[1] + " "@ + new_comment@),
        spec_tokens(content@).len() < 2 ==> (r matches Err(e) && e is InvalidKeyFormat),
{
    let tokens = tokenize(content);
    if tokens.len() >= 2 {
        let mut line = tokens[0].clone();
        line.append(" ");
        line.append(tokens[1].as_str());
        line.append(" ");
        line.append(new_comment);
        proof {
            assert(tokens@[0]@ == spec_tokens(content@)[0]);
            assert(tokens@[1]@ == spec_tokens(content@)[1]);
        }
        Ok(line)
    } else {
        Err(SkmError::InvalidKeyFormat(String::from_str("Invalid public key format")))
    }
}

/// The algorithm family of a key, read from its file name.
#[derive(Clone, Copy, PartialEq, Eq, Structural, Debug)]
pub enum KeyType {
    Rsa,
    Ed25519,
    Ecdsa,
    Dsa,
    Unknown,
}

/// What `KeyType::from_filename` returns for a given name.
pub open spec fn spec_key_type_of(name: Seq<char>) -> KeyType {
    if contains_sub(name, "rsa"@) {
        KeyType::Rsa
    } else if contains_sub(name, "ed25519"@) {
        KeyType::Ed25519
    } else if contains_sub(name, "ecdsa"@) {
        KeyType::Ecdsa
    } else if contains_sub(name, "dsa"@) {
        KeyType::Dsa
    } else {
        KeyType::Unknown
    }
}

/// What `KeyType::default_filename` returns for each variant.
pub open spec fn spec_default_filename(t: KeyType) -> Seq<char> {
    match t {
        KeyType::Rsa => "id_rsa"@,
        KeyType::Ed25519 => "id_ed25519"@,
        KeyType::Ecdsa => "id_ecdsa"@,
        KeyType::Dsa => "id_dsa"@,
        KeyType::Unknown => "id_unknown"@,
    }
}

/// What `KeyType::label` returns for each variant.
pub open spec fn spec_key_type_label(t: KeyType) -> Seq<char> {
    match t {
        KeyType::Rsa => "RSA"@,
        KeyType::Ed25519 => "ED25519"@,
        KeyType::Ecdsa => "ECDSA"@,
        KeyType::Dsa => "DSA"@,
        KeyType::Unknown => "Unknown"@,
    }
}

impl KeyType {
    /// Classify a key by the substrings of its file name, most specific
    /// match first.
    pub fn from_filename(filename: &str) -> (r: KeyType)
        ensures
            r == spec_key_type_of(filename@),
    {
        if str_contains(filename, "rsa") {
            KeyType::Rsa
        } else if str_contains(filename, "ed25519") {
            KeyType::Ed25519
        } else if str_contains(filename, "ecdsa") {
            KeyType::Ecdsa
        } else if str_contains(filename, "dsa") {
            KeyType::Dsa
        } else {
            KeyType::Unknown
        }
    }

    /// The customary file name for a fresh key of this type.
    pub fn default_filename(&self) -> (r: &'static str)
        ensures
            r@ == spec_default_filename(*self),
    {
        match self {
            KeyType::Rsa => "id_rsa",
            KeyType::Ed25519 => "id_ed25519",
            KeyType::Ecdsa => "id_ecdsa",
            KeyType::Dsa => "id_dsa",
            KeyType::Unknown => "id_unknown",
        }
    }

    /// The display name of this type, in place of `Display`.
    pub fn label(&self) -> (r: &'static str)
        ensures
            r@ == spec_key_type_label(*self),
    {
        match self {
            KeyType::Rsa => "RSA",
            KeyType::Ed25519 => "ED25519",
            KeyType::Ecdsa => "ECDSA",
            KeyType::Dsa => "DSA",
            KeyType::Unknown => "Unknown",
        }
    }
}

/// How complete a key pair on disk is.
#[derive(Clone, Copy, PartialEq, Eq, Structural, Debug)]
pub enum KeyStatus {
    Valid,
    MissingPublic,
    MissingPrivate,
    Corrupted,
    Encrypted,
}

/// What `determine_status` returns for each combination of present halves.
pub open spec fn spec_status_of(private_exists: bool, public_exists: bool) -> KeyStatus {
    if private_exists && public_exists {
        KeyStatus::Valid
    } else if private_exists {
        KeyStatus::MissingPublic
    } else if public_exists {
        KeyStatus::MissingPrivate
    } else {
        KeyStatus::Corrupted
    }
}

/// Classify a key pair by which of its halves are present.
pub fn determine_status(private_exists: bool, public_exists: bool) -> (r: KeyStatus)
    ensures
        r == spec_status_of(private_exists, public_exists),
{
    if private_exists && public_exists {
        KeyStatus::Valid
    } else if private_exists {
        KeyStatus::MissingPublic
    } else if public_exists {
        KeyStatus::MissingPrivate
    } else {
        KeyStatus::Corrupted
    }
}

/// One key pair as the backup engine sees it: a unique name, a type, an
/// optional comment, and whichever halves exist, as raw bytes.
pub struct KeyRecord {
    pub name: String,
    pub key_type: KeyType,
    pub comment: Option<String>,
    pub private_key: Option<Vec<u8>>,
    pub public_key: Option<Vec<u8>>,
}

/// Mathematical image of [`KeyRecord`].
#[verifier::ext_equal]
pub struct RecordView {
    pub name: Seq<char>,
    pub key_type: KeyType,
    pub comment: Option<Seq<char>>,
    pub private_key: Option<Seq<u8>>,
    pub public_key: Option<Seq<u8>>,
}

impl View for KeyRecord {
    type V = RecordView;

    open spec fn view(&self) -> RecordView {
        RecordView {
            name: self.name@,
            key_type: self.key_type,
            comment: match self.comment {
                Option::Some(c) => Option::Some(c@),
                Option::None => Option::None,
            },
            private_key: match self.private_key {
                Option::Some(ref b) => Option::Some(b@),
                Option::None => Option::None,
            },
            public_key: match self.public_key {
                Option::Some(ref b) => Option::Some(b@),
                Option::None => Option::None,
            },
        }
    }
}

/// The views of a list of records.
pub open spec fn records_view(records: Seq<KeyRecord>) -> Seq<RecordView> {
    records.map_values(|r: KeyRecord| r@)
}

impl KeyRecord {
    /// The private half is present.
    pub fn has_private(&self) -> (r: bool)
        ensures
            r == self.private_key is Some,
    {
        self.private_key.is_some()
    }

    /// The public half is present.
    pub fn has_public(&self) -> (r: bool)
        ensures
            r == self.public_key is Some,
    {
        self.public_key.is_some()
    }
}

} // verus!
