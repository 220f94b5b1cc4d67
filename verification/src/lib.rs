//! An HTTP entity tag (RFC 7232 `ETag`) value type.
//!
//! An entity tag is an opaque ASCII validator string together with a
//! weak/strong flag, written on the wire as `"<text>"` or `W/"<text>"`. The
//! text is held in a fixed-capacity [`buffer::Buffer`], so a tag never holds
//! more than [`buffer::MAX_SIZE`] bytes of content.

pub mod buffer;
pub mod text;

use crate::buffer::{Buffer, MAX_SIZE};
use crate::text::{ascii_of, dec_bytes_of, dec_chars, lemma_ascii_encode, lemma_dec_chars_ascii};
use vstd::prelude::*;
use vstd::string::{StrSliceExecFns, StringExecFns};
use vstd::utf8::{decode_utf8, encode_utf8, is_ascii_chars, valid_utf8};

verus! {

/// Seed handed to the hashing collaborator by [`EntityTag::from_hash`].
pub const SEED: u64 = 0x1000;

/// The ways building or parsing an entity tag can fail.
#[derive(Debug, PartialEq, Eq, Structural)]
pub enum ParseError {
    /// The wire text is not of the form `"<text>"` or `W/"<text>"`.
    InvalidFormat,
    /// The tag text contains a non-ASCII character.
    NotAscii,
    /// The tag text does not fit the fixed capacity.
    Overflow,
}

impl ParseError {
    /// A human-readable description of the error.
    pub fn message(&self) -> (r: String)
        ensures
            match self {
                ParseError::InvalidFormat => r@ == "EntityTag uses invalid format"@,
                ParseError::NotAscii => r@ == "EntityTag uses non-ASCII characters"@,
                ParseError::Overflow => r@ == "EntityTag size overflows buffer"@,
            },
    {
        match self {
            ParseError::InvalidFormat => String::from_str("EntityTag uses invalid format"),
            ParseError::NotAscii => String::from_str("EntityTag uses non-ASCII characters"),
            ParseError::Overflow => String::from_str("EntityTag size overflows buffer"),
        }
    }
}

/// An entity tag: a weakness flag plus opaque ASCII text of at most
/// [`MAX_SIZE`] bytes, held inline in a [`Buffer`].
///
/// A weak tag (`W/"..."` on the wire) only promises semantic equivalence;
/// a strong tag promises byte-exact equality. Use [`EntityTag::strong_eq`]
/// or [`EntityTag::weak_eq`] for those comparisons; `==` checks identity
/// (same flag and same text).
///
/// The view of an entity tag is the pair of its weakness flag and its text.
#[derive(Clone, Debug, PartialEq, Eq)]
pub struct EntityTag {
    /// Weakness indicator for the tag.
    pub weak: bool,
    /// The opaque text standing between the double quotes on the wire.
    tag: Buffer,
}

impl View for EntityTag {
    type V = (bool, Seq<char>);

    closed spec fn view(&self) -> (bool, Seq<char>) {
        (self.weak, decode_utf8(self.tag@))
    }
}

impl EntityTag {
    /// The bytes held in the tag's buffer.
    pub closed spec fn tag_bytes(&self) -> Seq<u8> {
        self.tag@
    }

    /// The tag's opaque text.
    pub open spec fn tag_chars(&self) -> Seq<char> {
        self@.1
    }

    /// The buffer holds valid ASCII text within the fixed capacity, and the
    /// tag's text is what those bytes decode to.
    pub open spec fn wf(&self) -> bool {
        &&& valid_utf8(self.tag_bytes())
        &&& self.tag_chars() == decode_utf8(self.tag_bytes())
        &&& is_ascii_chars(self.tag_chars())
        &&& self.tag_bytes().len() == self.tag_chars().len()
        &&& self.tag_bytes().len() <= MAX_SIZE
    }

    /// What [`EntityTag::checked_new`] yields for a given flag and text:
    /// the tag's view, or the error that rules the text out.
    pub open spec fn checked_new_spec(weak: bool, tag: Seq<char>) -> Result<
        (bool, Seq<char>),
        ParseError,
    > {
        if !is_ascii_chars(tag) {
            Err(ParseError::NotAscii)
        } else if tag.len() > MAX_SIZE {
            Err(ParseError::Overflow)
        } else {
            Ok((weak, tag))
        }
    }

    /// Constructs a new entity tag, verifying that the text is ASCII and that
    /// it fits the fixed capacity.
    pub fn checked_new(weak: bool, tag: &str) -> (r: Result<EntityTag, ParseError>)
        ensures
            match r {
                Ok(t) => t.wf() && Self::checked_new_spec(weak, tag@) == Ok::<
                    (bool, Seq<char>),
                    ParseError,
                >(t@),
                Err(e) => Self::checked_new_spec(weak, tag@) == Err::<
                    (bool, Seq<char>),
                    ParseError,
                >(e),
            },
    {
        if !tag.is_ascii() {
            return Err(ParseError::NotAscii);
        }
        let bytes = tag.as_bytes();
        proof {
            broadcast use vstd::utf8::is_ascii_chars_encode_utf8;

            assert(bytes@.len() == tag@.len());
        }
        let mut buf = Buffer::new();
        if buf.write_bytes(bytes) {
            let t = EntityTag { weak, tag: buf };
            proof {
                broadcast use vstd::utf8::encode_utf8_valid_utf8, vstd::utf8::encode_utf8_decode_utf8;

                assert(t.tag_bytes() =~= encode_utf8(tag@));
            }
            Ok(t)
        } else {
            Err(ParseError::Overflow)
        }
    }

    /// Constructs a new entity tag from text already known to be ASCII and to
    /// fit the fixed capacity.
    pub fn new(weak: bool, tag: &str) -> (r: EntityTag)
        requires
            is_ascii_chars(tag@),
            tag@.len() <= MAX_SIZE,
        ensures
            r.wf(),
            r@ == (weak, tag@),
    {
        match Self::checked_new(weak, tag) {
            Ok(t) => t,
            Err(_) => vstd::pervasive::unreached(),
        }
    }

    /// Constructs a new weak entity tag, using the same preconditions as
    /// [`EntityTag::new`].
    pub fn weak(tag: &str) -> (r: EntityTag)
        requires
            is_ascii_chars(tag@),
            tag@.len() <= MAX_SIZE,
        ensures
            r.wf(),
            r@ == (true, tag@),
    {
        Self::new(true, tag)
    }

    /// Constructs a new strong entity tag, using the same preconditions as
    /// [`EntityTag::new`].
    pub fn strong(tag: &str) -> (r: EntityTag)
        requires
            is_ascii_chars(tag@),
            tag@.len() <= MAX_SIZE,
        ensures
            r.wf(),
            r@ == (false, tag@),
    {
        Self::new(false, tag)
    }

    /// Constructs a new weak entity tag, using the same checks as
    /// [`EntityTag::checked_new`].
    pub fn checked_weak(tag: &str) -> (r: Result<EntityTag, ParseError>)
        ensures
            match r {
                Ok(t) => t.wf() && Self::checked_new_spec(true, tag@) == Ok::<
                    (bool, Seq<char>),
                    ParseError,
                >(t@),
                Err(e) => Self::checked_new_spec(true, tag@) == Err::<
                    (bool, Seq<char>),
                    ParseError,
                >(e),
            },
    {
        Self::checked_new(true, tag)
    }

    /// Constructs a new strong entity tag, using the same checks as
    /// [`EntityTag::checked_new`].
    pub fn checked_strong(tag: &str) -> (r: Result<EntityTag, ParseError>)
        ensures
            match r {
                Ok(t) => t.wf() && Self::checked_new_spec(false, tag@) == Ok::<
                    (bool, Seq<char>),
                    ParseError,
                >(t@),
                Err(e) => Self::checked_new_spec(false, tag@) == Err::<
                    (bool, Seq<char>),
                    ParseError,
                >(e),
            },
    {
        Self::checked_new(false, tag)
    }

    /// Returns the tag's opaque text.
    pub fn tag(&self) -> (r: &str)
        requires
            self.wf(),
        ensures
            r@ == self.tag_chars(),
    {
        self.tag.as_str()
    }

    /// Strong comparison: both tags are strong and their texts match
    /// character by character.
    pub fn strong_eq(&self, other: &EntityTag) -> (r: bool)
        requires
            self.wf(),
            other.wf(),
        ensures
            r == (!self@.0 && !other@.0 && self.tag_chars() == other.tag_chars()),
    {
        proof {
            vstd::utf8::decode_utf8_encode_utf8(self.tag_bytes());
            vstd::utf8::decode_utf8_encode_utf8(other.tag_bytes());
        }
        !self.weak && !other.weak && self.tag.content_eq(&other.tag)
    }

    /// Weak comparison: the texts match character by character, regardless of
    /// either tag's weakness.
    pub fn weak_eq(&self, other: &EntityTag) -> (r: bool)
        requires
            self.wf(),
            other.wf(),
        ensures
            r == (self.tag_chars() == other.tag_chars()),
    {
        proof {
            vstd::utf8::decode_utf8_encode_utf8(self.tag_bytes());
            vstd::utf8::decode_utf8_encode_utf8(other.tag_bytes());
        }
        self.tag.content_eq(&other.tag)
    }

    /// The inverse of [`EntityTag::strong_eq`].
    pub fn strong_ne(&self, other: &EntityTag) -> (r: bool)
        requires
            self.wf(),
            other.wf(),
        ensures
            r == !(!self@.0 && !other@.0 && self.tag_chars() == other.tag_chars()),
    {
        !self.strong_eq(other)
    }

    /// The inverse of [`EntityTag::weak_eq`].
    pub fn weak_ne(&self, other: &EntityTag) -> (r: bool)
        requires
            self.wf(),
            other.wf(),
        ensures
            r == (self.tag_chars() != other.tag_chars()),
    {
        !self.weak_eq(other)
    }

    /// The wire form of a tag: its text between double quotes, preceded by
    /// `W/` when the tag is weak.
    pub open spec fn format_spec(weak: bool, tag: Seq<char>) -> Seq<char> {
        (if weak {
            seq!['W', '/']
        } else {
            Seq::<char>::empty()
        }) + seq!['"'] + tag + seq!['"']
    }

    /// Formats the tag in its wire form.
    pub fn to_text(&self) -> (r: String)
        requires
            self.wf(),
        ensures
            r@ == Self::format_spec(self@.0, self.tag_chars()),
    {
        let mut s = String::new();
        if self.weak {
            s.append("W/");
        }
        s.append("\"");
        s.append(self.tag.as_str());
        s.append("\"");
        proof {
            reveal_strlit("W/");
            reveal_strlit("\"");
            assert(s@ =~= Self::format_spec(self@.0, self.tag_chars()));
        }
        s
    }

    /// What [`EntityTag::parse`] yields for a given wire text: the parsed
    /// tag's view, or the error that rules the text out.
    pub open spec fn parse_spec(s: Seq<char>) -> Result<(bool, Seq<char>), ParseError> {
        if s.len() < 2 || s[s.len() - 1] != '"' {
            Err(ParseError::InvalidFormat)
        } else if s[0] == '"' {
            Self::checked_new_spec(false, s.subrange(1, s.len() - 1))
        } else if s.len() >= 4 && s[0] == 'W' && s[1] == '/' && s[2] == '"' {
            Self::checked_new_spec(true, s.subrange(3, s.len() - 1))
        } else {
            Err(ParseError::InvalidFormat)
        }
    }

    /// Parses a tag from its wire form: `"<text>"` for a strong tag, or
    /// `W/"<text>"`, with a case-sensitive `W/`, for a weak one.
    pub fn parse(text: &str) -> (r: Result<EntityTag, ParseError>)
        ensures
            match r {
                Ok(t) => t.wf() && Self::parse_spec(text@) == Ok::<
                    (bool, Seq<char>),
                    ParseError,
                >(t@),
                Err(e) => Self::parse_spec(text@) == Err::<(bool, Seq<char>), ParseError>(e),
            },
    {
        let len = text.unicode_len();
        if len < 2 || text.get_char(len - 1) != '"' {
            return Err(ParseError::InvalidFormat);
        }
        if text.get_char(0) == '"' {
            let interior = text.substring_char(1, len - 1);
            Self::checked_strong(interior)
        } else if len >= 4 && text.get_char(0) == 'W' && text.get_char(1) == '/' && text.get_char(2)
            == '"' {
            let interior = text.substring_char(3, len - 1);
            Self::checked_weak(interior)
        } else {
            Err(ParseError::InvalidFormat)
        }
    }

    /// The text of a hash-derived tag: the input's byte length and its
    /// digest, in decimal, joined by `-`.
    pub open spec fn hash_tag_chars(b: Seq<u8>) -> Seq<char> {
        dec_chars(b.len()) + seq!['-'] + dec_chars(hash_of(b, SEED) as nat)
    }

    /// Creates a strong entity tag by hashing the provided bytes.
    ///
    /// The tag text is `<byte-length>-<digest>`, so it is a function of the
    /// input bytes alone: the same bytes always yield the same tag.
    pub fn from_hash(bytes: &[u8]) -> (r: EntityTag)
        ensures
            r.wf(),
            r@ == (false, Self::hash_tag_chars(bytes@)),
    {
        let hash = wy_def_hash(bytes, SEED);
        let mut content = dec_bytes_of(bytes.len() as u64);
        content.push(45);
        let mut hash_digits = dec_bytes_of(hash);
        content.append(&mut hash_digits);
        proof {
            lemma_dec_chars_ascii(bytes@.len());
            lemma_dec_chars_ascii(hash_of(bytes@, SEED) as nat);
            lemma_joined_ascii(
                dec_chars(bytes@.len()),
                '-',
                dec_chars(hash_of(bytes@, SEED) as nat),
            );
            lemma_ascii_encode(Self::hash_tag_chars(bytes@));
            assert(content@ =~= ascii_of(Self::hash_tag_chars(bytes@)));
        }
        Self::from_ascii_content(false, content)
    }

    /// Builds a tag around ASCII content that is known to fit the buffer.
    fn from_ascii_content(weak: bool, content: Vec<u8>) -> (r: EntityTag)
        requires
            exists|s: Seq<char>| is_ascii_chars(s) && content@ == ascii_of(s),
            content@.len() <= MAX_SIZE,
        ensures
            r.wf(),
            r@ == (weak, decode_utf8(content@)),
    {
        proof {
            let s = choose|s: Seq<char>| is_ascii_chars(s) && content@ == ascii_of(s);
            lemma_ascii_encode(s);
        }
        let mut buf = Buffer::new();
        let fits = buf.write_bytes(content.as_slice());
        if !fits {
            return vstd::pervasive::unreached();
        }
        let t = EntityTag { weak, tag: buf };
        proof {
            assert(t.tag_bytes() =~= content@);
        }
        t
    }
}

/// A point in time, as a duration since the Unix epoch.
#[derive(Clone, Copy, Debug, PartialEq, Eq, Structural)]
pub struct FileTime {
    /// Whole seconds since the epoch.
    pub secs: u64,
    /// The sub-second remainder, in nanoseconds.
    pub nanos: u32,
}

/// The two fields of file metadata that a metadata-derived tag reads.
///
/// The filesystem layer that fills these fields in stays outside this
/// library; the tag itself performs no I/O.
#[derive(Clone, Copy, Debug, PartialEq, Eq)]
pub struct FileMeta {
    /// The file's last-modification time, where the filesystem offers one.
    pub modified: Option<FileTime>,
    /// The file's size in bytes.
    pub size: u64,
}

impl EntityTag {
    /// The text of a metadata-derived tag: `<seconds>.<nanoseconds>-<size>`,
    /// or just `<size>` when no modification time is known.
    pub open spec fn file_meta_chars(meta: FileMeta) -> Seq<char> {
        match meta.modified {
            Some(t) => dec_chars(t.secs as nat) + seq!['.'] + dec_chars(t.nanos as nat) + seq!['-']
                + dec_chars(meta.size as nat),
            None => dec_chars(meta.size as nat),
        }
    }

    /// Creates a weak entity tag from file metadata, using the modification
    /// time and the size.
    pub fn from_file_meta(meta: &FileMeta) -> (r: EntityTag)
        ensures
            r.wf(),
            r@ == (true, Self::file_meta_chars(*meta)),
    {
        let mut content: Vec<u8>;
        match meta.modified {
            Some(t) => {
                content = dec_bytes_of(t.secs);
                content.push(46);
                let mut nano_digits = dec_bytes_of(t.nanos as u64);
                content.append(&mut nano_digits);
                content.push(45);
                let mut size_digits = dec_bytes_of(meta.size);
                content.append(&mut size_digits);
                proof {
                    lemma_dec_chars_ascii(t.secs as nat);
                    lemma_dec_chars_ascii(t.nanos as nat);
                    lemma_dec_chars_ascii(meta.size as nat);
                    lemma_joined_ascii(dec_chars(t.secs as nat), '.', dec_chars(t.nanos as nat));
                    lemma_joined_ascii(
                        dec_chars(t.secs as nat) + seq!['.'] + dec_chars(t.nanos as nat),
                        '-',
                        dec_chars(meta.size as nat),
                    );
                    lemma_ascii_encode(Self::file_meta_chars(*meta));
                    assert(content@ =~= ascii_of(Self::file_meta_chars(*meta)));
                }
            },
            None => {
                content = dec_bytes_of(meta.size);
                proof {
                    lemma_dec_chars_ascii(meta.size as nat);
                    lemma_ascii_encode(Self::file_meta_chars(*meta));
                    assert(content@ =~= ascii_of(Self::file_meta_chars(*meta)));
                }
            },
        }
        Self::from_ascii_content(true, content)
    }
}

/// The digest that the hashing collaborator computes for the given bytes and
/// seed.
pub uninterp spec fn hash_of(b: Seq<u8>, seed: u64) -> u64;

/// Relies on `wy::def_hash`: the digest is a function of the input bytes and
/// the seed alone, and the call returns for any input.
#[verifier::external_body]
fn wy_def_hash(bytes: &[u8], seed: u64) -> (r: u64)
    ensures
        r == hash_of(bytes@, seed),
{
    wy::def_hash(bytes, seed)
}

impl core::str::FromStr for EntityTag {
    type Err = ParseError;

    /// Parses a tag from its wire form; see [`EntityTag::parse`].
    fn from_str(text: &str) -> Result<EntityTag, ParseError> {
        EntityTag::parse(text)
    }
}

/// Round trip: formatting any tag value that the constructors accept — ASCII
/// text within the fixed capacity, with either weakness — and parsing the
/// result restores exactly that value.
pub proof fn lemma_format_parse_round_trip(weak: bool, tag: Seq<char>)
    requires
        is_ascii_chars(tag),
        tag.len() <= MAX_SIZE,
    ensures
        EntityTag::parse_spec(EntityTag::format_spec(weak, tag)) == Ok::<
            (bool, Seq<char>),
            ParseError,
        >((weak, tag)),
{
    let s = EntityTag::format_spec(weak, tag);
    if weak {
        assert(s.len() == tag.len() + 4);
        assert(s[0] == 'W');
        assert(s[1] == '/');
        assert(s[2] == '"');
        assert(s[s.len() - 1] == '"');
        assert(s.subrange(3, s.len() - 1) =~= tag);
    } else {
        assert(s.len() == tag.len() + 2);
        assert(s[0] == '"');
        assert(s[s.len() - 1] == '"');
        assert(s.subrange(1, s.len() - 1) =~= tag);
    }
}

/// Overflow boundary: ASCII text of exactly the fixed capacity is accepted,
/// while text one character longer is rejected with an overflow error.
pub proof fn lemma_overflow_boundary(weak: bool, at_cap: Seq<char>, over_cap: Seq<char>)
    requires
        is_ascii_chars(at_cap),
        at_cap.len() == MAX_SIZE,
        is_ascii_chars(over_cap),
        over_cap.len() == MAX_SIZE + 1,
    ensures
        EntityTag::checked_new_spec(weak, at_cap) == Ok::<(bool, Seq<char>), ParseError>(
            (weak, at_cap),
        ),
        EntityTag::checked_new_spec(weak, over_cap) == Err::<(bool, Seq<char>), ParseError>(
            ParseError::Overflow,
        ),
{
}

/// Hash determinism: two hash-derived tags built from the same bytes are
/// identical — strong, with the same text and even the same stored bytes.
pub proof fn lemma_from_hash_deterministic(a: EntityTag, b: EntityTag, bytes: Seq<u8>)
    requires
        a.wf(),
        a@ == (false, EntityTag::hash_tag_chars(bytes)),
        b.wf(),
        b@ == (false, EntityTag::hash_tag_chars(bytes)),
    ensures
        a@ == b@,
        a.tag_bytes() == b.tag_bytes(),
{
    vstd::utf8::decode_utf8_encode_utf8(a.tag_bytes());
    vstd::utf8::decode_utf8_encode_utf8(b.tag_bytes());
}

/// Two ASCII runs joined by an ASCII character are ASCII.
proof fn lemma_joined_ascii(a: Seq<char>, c: char, b: Seq<char>)
    requires
        is_ascii_chars(a),
        is_ascii_chars(b),
        '\0' <= c <= '\u{7f}',
    ensures
        is_ascii_chars(a + seq![c] + b),
{
    assert forall|i| 0 <= i < (a + seq![c] + b).len() implies '\0' <= #[trigger] (a + seq![c]
        + b)[i] <= '\u{7f}' by {
        if i < a.len() {
            assert((a + seq![c] + b)[i] == a[i]);
        } else if i == a.len() {
            assert((a + seq![c] + b)[i] == c);
        } else {
            assert((a + seq![c] + b)[i] == b[i - a.len() - 1]);
        }
    }
}

} // verus!
