//! Typed objects, their canonical framed byte form, content hashing, and the
//! decoding of stored objects back into typed values.
//!
//! The canonical frame of an object is
//! `<type-tag> <decimal-length>\0<payload>`: the lowercase kind name, one
//! space, the payload's byte length in ASCII decimal without leading zeros,
//! one NUL byte, then the payload verbatim. The object's identifier is the
//! lowercase hex SHA-1 of that frame.

use crate::deflate::{gunzip_of, gzip_compress, gzip_decompress};
use crate::digits::{
    dec_digits, dec_value, is_digit, is_digit_seq, lemma_dec_digits_are_digits,
    lemma_dec_digits_value, parse_decimal, render_decimal,
};
use crate::errors::GirError;
use crate::hexcode::{hex_bytes, hex_encode, lemma_hex_bytes_ascii};
use crate::repository::GitRepository;
use crate::sha::{sha1_digest, sha1_of};
use crate::textutil::{ascii_chars_of, ascii_seq, ascii_to_string, bytes_are_ascii};
use vstd::prelude::*;

verus! {

/// The four recognized object kinds.
#[derive(Debug, Clone, Copy, PartialEq, Eq, Structural)]
pub enum ObjectType {
    Blob,
    Commit,
    Tag,
    Tree,
}

/// The characters of a kind's lowercase type tag.
pub open spec fn tag_chars(t: ObjectType) -> Seq<char> {
    match t {
        ObjectType::Commit => "commit"@,
        ObjectType::Tree => "tree"@,
        ObjectType::Tag => "tag"@,
        ObjectType::Blob => "blob"@,
    }
}

/// The bytes of a kind's lowercase type tag.
pub open spec fn tag_bytes(t: ObjectType) -> Seq<u8> {
    match t {
        ObjectType::Commit => seq![99u8, 111u8, 109u8, 109u8, 105u8, 116u8],
        ObjectType::Tree => seq![116u8, 114u8, 101u8, 101u8],
        ObjectType::Tag => seq![116u8, 97u8, 103u8],
        ObjectType::Blob => seq![98u8, 108u8, 111u8, 98u8],
    }
}

impl ObjectType {
    /// The kind's type tag as a string.
    pub fn tag_str(&self) -> (r: &'static str)
        ensures
            r@ == tag_chars(*self),
    {
        match self {
            ObjectType::Commit => "commit",
            ObjectType::Tree => "tree",
            ObjectType::Tag => "tag",
            ObjectType::Blob => "blob",
        }
    }
}

/// The kind's type tag as bytes.
fn tag_byte_vec(t: ObjectType) -> (r: Vec<u8>)
    ensures
        r@ == tag_bytes(t),
{
    let mut v: Vec<u8> = Vec::new();
    match t {
        ObjectType::Commit => {
            v.push(99);
            v.push(111);
            v.push(109);
            v.push(109);
            v.push(105);
            v.push(116);
        },
        ObjectType::Tree => {
            v.push(116);
            v.push(114);
            v.push(101);
            v.push(101);
        },
        ObjectType::Tag => {
            v.push(116);
            v.push(97);
            v.push(103);
        },
        ObjectType::Blob => {
            v.push(98);
            v.push(108);
            v.push(111);
            v.push(98);
        },
    }
    assert(v@ =~= tag_bytes(t));
    v
}

/// Copies a byte vector.
fn clone_bytes(v: &Vec<u8>) -> (r: Vec<u8>)
    ensures
        r@ == v@,
{
    let r = v.clone();
    assert(r@ =~= v@) by {
        assert forall|i: int| 0 <= i < v@.len() implies r@[i] == v@[i] by {
            assert(cloned::<u8>(v@[i], r@[i]));
        }
    }
    r
}

/// A commit object's raw payload.
#[derive(Debug, Clone, PartialEq, Eq)]
pub struct GitCommit(pub Vec<u8>);

/// A tree object's raw payload.
#[derive(Debug, Clone, PartialEq, Eq)]
pub struct GitTree(pub Vec<u8>);

/// A tag object's raw payload.
#[derive(Debug, Clone, PartialEq, Eq)]
pub struct GitTag(pub Vec<u8>);

/// A blob object's raw payload.
#[derive(Debug, Clone, PartialEq, Eq)]
pub struct GitBlob(pub Vec<u8>);

/// A typed object: one of the four kinds, each wrapping an opaque payload
/// whose internal structure this subsystem never interprets.
#[derive(Debug, Clone, PartialEq, Eq)]
pub enum GitObject {
    Commit(GitCommit),
    Tree(GitTree),
    Tag(GitTag),
    Blob(GitBlob),
}

/// A typed object: it has a kind, a payload, and serialization.
pub trait GitObjectTrait {
    /// The object's kind.
    spec fn kind_spec(&self) -> ObjectType;

    /// The object's raw payload bytes.
    spec fn payload_spec(&self) -> Seq<u8>;

    /// The object's type tag.
    fn fmt(&self) -> (r: &'static str)
        ensures
            r@ == tag_chars(self.kind_spec()),
    ;

    /// The object's payload in serialized form (payloads are opaque, so this
    /// is the payload itself).
    fn serialize(&self) -> (r: Vec<u8>)
        ensures
            r@ == self.payload_spec(),
    ;

    /// The payload recovered from its serialized form.
    fn deserialize(&self) -> (r: Vec<u8>)
        ensures
            r@ == self.payload_spec(),
    ;
}

impl GitCommit {
    /// Wraps raw bytes as a commit payload.
    pub fn new(data: Vec<u8>) -> (r: Self)
        ensures
            r.payload_spec() == data@,
    {
        GitCommit(data)
    }
}

impl GitTree {
    /// Wraps raw bytes as a tree payload.
    pub fn new(data: Vec<u8>) -> (r: Self)
        ensures
            r.payload_spec() == data@,
    {
        GitTree(data)
    }
}

impl GitTag {
    /// Wraps raw bytes as a tag payload.
    pub fn new(data: Vec<u8>) -> (r: Self)
        ensures
            r.payload_spec() == data@,
    {
        GitTag(data)
    }
}

impl GitBlob {
    /// Wraps raw bytes as a blob payload.
    pub fn new(data: Vec<u8>) -> (r: Self)
        ensures
            r.payload_spec() == data@,
    {
        GitBlob(data)
    }
}

impl GitObjectTrait for GitCommit {
    open spec fn kind_spec(&self) -> ObjectType {
        ObjectType::Commit
    }

    open spec fn payload_spec(&self) -> Seq<u8> {
        self.0@
    }

    fn fmt(&self) -> (r: &'static str) {
        "commit"
    }

    fn serialize(&self) -> (r: Vec<u8>) {
        clone_bytes(&self.0)
    }

    fn deserialize(&self) -> (r: Vec<u8>) {
        clone_bytes(&self.0)
    }
}

impl GitObjectTrait for GitTree {
    open spec fn kind_spec(&self) -> ObjectType {
        ObjectType::Tree
    }

    open spec fn payload_spec(&self) -> Seq<u8> {
        self.0@
    }

    fn fmt(&self) -> (r: &'static str) {
        "tree"
    }

    fn serialize(&self) -> (r: Vec<u8>) {
        clone_bytes(&self.0)
    }

    fn deserialize(&self) -> (r: Vec<u8>) {
        clone_bytes(&self.0)
    }
}

impl GitObjectTrait for GitTag {
    open spec fn kind_spec(&self) -> ObjectType {
        ObjectType::Tag
    }

    open spec fn payload_spec(&self) -> Seq<u8> {
        self.0@
    }

    fn fmt(&self) -> (r: &'static str) {
        "tag"
    }

    fn serialize(&self) -> (r: Vec<u8>) {
        clone_bytes(&self.0)
    }

    fn deserialize(&self) -> (r: Vec<u8>) {
        clone_bytes(&self.0)
    }
}

impl GitObjectTrait for GitBlob {
    open spec fn kind_spec(&self) -> ObjectType {
        ObjectType::Blob
    }

    open spec fn payload_spec(&self) -> Seq<u8> {
        self.0@
    }

    fn fmt(&self) -> (r: &'static str) {
        "blob"
    }

    fn serialize(&self) -> (r: Vec<u8>) {
        clone_bytes(&self.0)
    }

    fn deserialize(&self) -> (r: Vec<u8>) {
        clone_bytes(&self.0)
    }
}

impl GitObject {
    /// The object's kind.
    pub open spec fn kind(&self) -> ObjectType {
        match self {
            GitObject::Commit(_) => ObjectType::Commit,
            GitObject::Tree(_) => ObjectType::Tree,
            GitObject::Tag(_) => ObjectType::Tag,
            GitObject::Blob(_) => ObjectType::Blob,
        }
    }

    /// The object's raw payload bytes.
    pub open spec fn payload(&self) -> Seq<u8> {
        match self {
            GitObject::Commit(o) => o.0@,
            GitObject::Tree(o) => o.0@,
            GitObject::Tag(o) => o.0@,
            GitObject::Blob(o) => o.0@,
        }
    }
}

impl GitObjectTrait for GitObject {
    open spec fn kind_spec(&self) -> ObjectType {
        self.kind()
    }

    open spec fn payload_spec(&self) -> Seq<u8> {
        self.payload()
    }

    fn fmt(&self) -> (r: &'static str) {
        match self {
            GitObject::Commit(o) => o.fmt(),
            GitObject::Tree(o) => o.fmt(),
            GitObject::Tag(o) => o.fmt(),
            GitObject::Blob(o) => o.fmt(),
        }
    }

    fn serialize(&self) -> (r: Vec<u8>) {
        match self {
            GitObject::Commit(o) => o.serialize(),
            GitObject::Tree(o) => o.serialize(),
            GitObject::Tag(o) => o.serialize(),
            GitObject::Blob(o) => o.serialize(),
        }
    }

    fn deserialize(&self) -> (r: Vec<u8>) {
        match self {
            GitObject::Commit(o) => o.deserialize(),
            GitObject::Tree(o) => o.deserialize(),
            GitObject::Tag(o) => o.deserialize(),
            GitObject::Blob(o) => o.deserialize(),
        }
    }
}

impl GitObject {
    /// The object's kind.
    pub fn object_type(&self) -> (r: ObjectType)
        ensures
            r == self.kind(),
    {
        match self {
            GitObject::Commit(_) => ObjectType::Commit,
            GitObject::Tree(_) => ObjectType::Tree,
            GitObject::Tag(_) => ObjectType::Tag,
            GitObject::Blob(_) => ObjectType::Blob,
        }
    }
}

/// A frame with an arbitrary digit field: tag, space, digits, NUL, payload.
pub open spec fn loose_frame(tag: Seq<u8>, digits: Seq<u8>, payload: Seq<u8>) -> Seq<u8> {
    tag + seq![32u8] + digits + seq![0u8] + payload
}

/// The canonical frame of an object with kind `t` and payload `p`.
pub open spec fn frame_of(t: ObjectType, p: Seq<u8>) -> Seq<u8> {
    loose_frame(tag_bytes(t), dec_digits(p.len()), p)
}

/// The identifier of an object with kind `t` and payload `p`: the lowercase
/// hex SHA-1 of its canonical frame.
pub open spec fn id_chars(t: ObjectType, p: Seq<u8>) -> Seq<char> {
    ascii_chars_of(hex_bytes(sha1_of(frame_of(t, p))))
}

/// Distinct kinds have distinct type tags.
pub proof fn lemma_tag_chars_injective(t1: ObjectType, t2: ObjectType)
    requires
        tag_chars(t1) == tag_chars(t2),
    ensures
        t1 == t2,
{
    reveal_strlit("commit");
    reveal_strlit("tree");
    reveal_strlit("tag");
    reveal_strlit("blob");
    assert("commit"@.len() == 6);
    assert("tree"@.len() == 4);
    assert("tag"@.len() == 3);
    assert("blob"@.len() == 4);
    assert("tree"@[0] == 't');
    assert("blob"@[0] == 'b');
}

/// Builds the canonical frame of `obj`.
pub fn object_frame(obj: &GitObject) -> (r: Vec<u8>)
    ensures
        r@ == frame_of(obj.kind(), obj.payload()),
{
    let mut data = obj.serialize();
    let mut v = tag_byte_vec(obj.object_type());
    v.push(32);
    let mut len_digits = render_decimal(data.len() as u64);
    v.append(&mut len_digits);
    v.push(0);
    v.append(&mut data);
    assert(v@ =~= frame_of(obj.kind(), obj.payload()));
    v
}

/// Computes the identifier of `obj`: the 40-character lowercase hex SHA-1 of
/// its canonical frame. Pure hashing; nothing is stored.
pub fn object_id(obj: &GitObject) -> (r: String)
    ensures
        r@ == id_chars(obj.kind(), obj.payload()),
        r@.len() == 40,
{
    let frame = object_frame(obj);
    let digest = sha1_digest(&frame);
    let hexb = hex_encode(&digest);
    proof {
        lemma_hex_bytes_ascii(digest@);
    }
    ascii_to_string(hexb)
}

/// Computes everything the write path stores: the identifier and the
/// compressed canonical frame. The caller persists the compressed bytes at
/// the identifier's fan-out path (skipping the write when the path already
/// exists); with no repository at hand it uses the identifier alone. Always
/// succeeds: hashing, framing and in-memory compression have no failure.
pub fn object_write(obj: &GitObject) -> (r: Result<(String, Vec<u8>), GirError>)
    ensures
        r is Ok,
        r matches Ok(p) ==> p.0@ == id_chars(obj.kind(), obj.payload()) && p.0@.len() == 40
            && gunzip_of(p.1@) == Some(frame_of(obj.kind(), obj.payload())),
{
    let id = object_id(obj);
    let frame = object_frame(obj);
    match gzip_compress(&frame) {
        Ok(z) => Ok((id, z)),
        Err(_) => unreached(),
    }
}

/// Whether the write path stores anything, given whether a file already sits
/// at the identifier's path. Content at an identifier never changes, so an
/// existing file is trusted as is: the second write of the same object is a
/// no-op, never a re-write or a re-validation.
pub fn object_store_needed(already_present: bool) -> (r: bool)
    ensures
        r == !already_present,
{
    !already_present
}

/// Maps a type-tag string to its kind, if it is one of the four.
pub fn fmt_to_type(fmt: &str) -> (r: Option<ObjectType>)
    ensures
        r matches Some(t) ==> fmt@ == tag_chars(t),
        r is None ==> forall|t: ObjectType| fmt@ != tag_chars(t),
{
    let s = fmt.to_owned();
    if s == "commit".to_owned() {
        Some(ObjectType::Commit)
    } else if s == "tree".to_owned() {
        Some(ObjectType::Tree)
    } else if s == "tag".to_owned() {
        Some(ObjectType::Tag)
    } else if s == "blob".to_owned() {
        Some(ObjectType::Blob)
    } else {
        assert forall|t: ObjectType| fmt@ != tag_chars(t) by {
            assert(fmt@ != "commit"@);
            assert(fmt@ != "tree"@);
            assert(fmt@ != "tag"@);
            assert(fmt@ != "blob"@);
        }
        None
    }
}

/// Wraps raw bytes as an object of the kind named by `fmt`, failing on an
/// unrecognized type tag.
pub fn object_from_tag(fd: Vec<u8>, fmt: &str) -> (r: Result<GitObject, GirError>)
    ensures
        r matches Ok(o) ==> fmt@ == tag_chars(o.kind()) && o.payload() == fd@,
        r matches Err(e) ==> (forall|t: ObjectType| fmt@ != tag_chars(t)) && (e matches
            GirError::UnknownObjectType { tag, identifier } && tag@ == fmt@ && identifier is None),
        r is Ok <==> exists|t: ObjectType| fmt@ == tag_chars(t),
{
    match fmt_to_type(fmt) {
        Some(t) => {
            let obj = match t {
                ObjectType::Commit => GitObject::Commit(GitCommit::new(fd)),
                ObjectType::Tree => GitObject::Tree(GitTree::new(fd)),
                ObjectType::Tag => GitObject::Tag(GitTag::new(fd)),
                ObjectType::Blob => GitObject::Blob(GitBlob::new(fd)),
            };
            Ok(obj)
        },
        None => Err(GirError::UnknownObjectType { tag: fmt.to_owned(), identifier: None }),
    }
}

/// The index of the first occurrence of `b` in `s`, or -1 when absent.
pub open spec fn first_index(s: Seq<u8>, b: u8) -> int
    decreases s.len(),
{
    if s.len() == 0 {
        -1
    } else if s[0] == b {
        0
    } else {
        let r = first_index(s.drop_first(), b);
        if r < 0 {
            -1
        } else {
            r + 1
        }
    }
}

/// `first_index` finds the first occurrence: before it nothing matches, and
/// -1 means nothing matches at all.
pub proof fn lemma_first_index_is_first(s: Seq<u8>, b: u8)
    ensures
        first_index(s, b) == -1 ==> (forall|i: int| 0 <= i < s.len() ==> s[i] != b),
        first_index(s, b) >= 0 ==> 0 <= first_index(s, b) < s.len() && s[first_index(s, b)] == b
            && (forall|i: int| 0 <= i < first_index(s, b) ==> s[i] != b),
    decreases s.len(),
{
    if s.len() == 0 {
    } else if s[0] == b {
    } else {
        let ss = s.drop_first();
        lemma_first_index_is_first(ss, b);
        let r = first_index(ss, b);
        if r < 0 {
            assert(first_index(s, b) == -1);
            assert forall|i: int| 0 <= i < s.len() implies s[i] != b by {
                if i > 0 {
                    assert(s[i] == ss[i - 1]);
                }
            }
        } else {
            assert(first_index(s, b) == r + 1);
            assert(s[r + 1] == ss[r]);
            assert forall|i: int| 0 <= i < r + 1 implies s[i] != b by {
                if i > 0 {
                    assert(s[i] == ss[i - 1]);
                }
            }
        }
    }
}

/// The position known to hold the first occurrence pins `first_index` down.
pub proof fn lemma_first_index_at(s: Seq<u8>, b: u8, r: int)
    requires
        0 <= r < s.len(),
        s[r] == b,
        forall|i: int| 0 <= i < r ==> s[i] != b,
    ensures
        first_index(s, b) == r,
    decreases s.len(),
{
    if s[0] == b {
        assert(r == 0);
    } else {
        assert(r > 0);
        assert(forall|i: int|
            0 <= i < s.drop_first().len() ==> s.drop_first()[i] == s[i + 1]);
        lemma_first_index_at(s.drop_first(), b, r - 1);
    }
}

/// When nothing matches, `first_index` is -1.
pub proof fn lemma_first_index_none(s: Seq<u8>, b: u8)
    requires
        forall|i: int| 0 <= i < s.len() ==> s[i] != b,
    ensures
        first_index(s, b) == -1,
{
    lemma_first_index_is_first(s, b);
}

/// Finds the first occurrence of `b` in `v` at or after `from`.
fn find_byte(v: &Vec<u8>, b: u8, from: usize) -> (r: Option<usize>)
    requires
        from <= v@.len(),
    ensures
        r matches Some(i) ==> from <= i < v@.len() && v@[i as int] == b && (forall|j: int|
            from <= j < i ==> v@[j] != b),
        r is None ==> forall|j: int| from <= j < v@.len() ==> v@[j] != b,
{
    let mut i: usize = from;
    while i < v.len()
        invariant
            from <= i <= v@.len(),
            forall|j: int| from <= j < i ==> v@[j] != b,
        decreases v@.len() - i,
    {
        if v[i] == b {
            return Some(i);
        }
        i = i + 1;
    }
    None
}

/// Copies the bytes of `v` between `a` (inclusive) and `b` (exclusive).
fn subvec(v: &Vec<u8>, a: usize, b: usize) -> (r: Vec<u8>)
    requires
        a <= b <= v@.len(),
    ensures
        r@ == v@.subrange(a as int, b as int),
{
    let mut out: Vec<u8> = Vec::new();
    let mut i: usize = a;
    while i < b
        invariant
            a <= i <= b <= v@.len(),
            out@ =~= v@.subrange(a as int, i as int),
        decreases b - i,
    {
        out.push(v[i]);
        assert(out@ =~= v@.subrange(a as int, i + 1 as int));
        i = i + 1;
    }
    out
}

/// Compares two byte vectors for equality of their contents.
fn bytes_eq(a: &Vec<u8>, b: &Vec<u8>) -> (r: bool)
    ensures
        r == (a@ == b@),
{
    if a.len() != b.len() {
        assert(a@ != b@);
        return false;
    }
    let mut i: usize = 0;
    while i < a.len()
        invariant
            a@.len() == b@.len(),
            0 <= i <= a@.len(),
            forall|j: int| 0 <= j < i ==> a@[j] == b@[j],
        decreases a@.len() - i,
    {
        if a[i] != b[i] {
            return false;
        }
        i = i + 1;
    }
    assert(a@ =~= b@);
    true
}

/// The kind whose type tag is `tag`, if any.
pub open spec fn kind_of_tag(tag: Seq<u8>) -> Option<ObjectType> {
    if tag == tag_bytes(ObjectType::Commit) {
        Some(ObjectType::Commit)
    } else if tag == tag_bytes(ObjectType::Tree) {
        Some(ObjectType::Tree)
    } else if tag == tag_bytes(ObjectType::Tag) {
        Some(ObjectType::Tag)
    } else if tag == tag_bytes(ObjectType::Blob) {
        Some(ObjectType::Blob)
    } else {
        None
    }
}

/// Splits a decompressed frame into tag, length field and payload, mirroring
/// the read path: the tag ends at the first space, the length field at the
/// first NUL after it, and the field must spell out, in ASCII decimal,
/// exactly the number of bytes that follow that NUL.
pub open spec fn parse_frame_parts(raw: Seq<u8>) -> Option<(Seq<u8>, Seq<u8>, Seq<u8>)> {
    let x = first_index(raw, 32u8);
    if x < 0 {
        None
    } else {
        let yr = first_index(raw.skip(x), 0u8);
        if yr < 0 {
            None
        } else {
            let y = x + yr;
            let field = raw.subrange(x + 1, y);
            if field.len() > 0 && is_digit_seq(field) && dec_value(field) <= usize::MAX as nat
                && dec_value(field) == raw.len() - y - 1 {
                Some((raw.subrange(0, x), field, raw.subrange(y + 1, raw.len() as int)))
            } else {
                None
            }
        }
    }
}

/// The typed reading of a decompressed frame: its kind and payload when the
/// frame is well formed and its tag is recognized.
pub open spec fn parse_frame(raw: Seq<u8>) -> Option<(ObjectType, Seq<u8>)> {
    match parse_frame_parts(raw) {
        None => None,
        Some((tag, _field, payload)) => match kind_of_tag(tag) {
            Some(t) => Some((t, payload)),
            None => None,
        },
    }
}

/// The tag of a well-formed frame whose tag is not a recognized kind.
pub open spec fn frame_tag_error(raw: Seq<u8>) -> Option<Seq<u8>> {
    match parse_frame_parts(raw) {
        None => None,
        Some((tag, _field, _payload)) => match kind_of_tag(tag) {
            Some(_) => None,
            None => Some(tag),
        },
    }
}

/// How an unrecognized tag is shown in an error: its characters when it is
/// ASCII, a placeholder otherwise.
pub open spec fn tag_display(s: Seq<u8>) -> Seq<char> {
    if ascii_seq(s) {
        ascii_chars_of(s)
    } else {
        "<invalid utf8>"@
    }
}

/// Renders an unrecognized tag for an error message.
fn tag_display_string(v: Vec<u8>) -> (r: String)
    ensures
        r@ == tag_display(v@),
{
    if bytes_are_ascii(&v) {
        ascii_to_string(v)
    } else {
        "<invalid utf8>".to_owned()
    }
}

/// Decompresses a stored object's bytes and parses the canonical frame,
/// reconstructing the typed object. `sha` is the identifier under which the
/// bytes were stored; it only names the object in errors. Fails with
/// `MalformedObject` when the frame's structure or length field is
/// inconsistent, and with `UnknownObjectType` when the frame is well formed
/// but its tag is none of the four kinds.
pub fn object_decode(data: &Vec<u8>, sha: &str) -> (r: Result<GitObject, GirError>)
    ensures
        gunzip_of(data@) is None ==> (r matches Err(e) && e is Io),
        gunzip_of(data@) matches Some(raw) ==> (parse_frame(raw) matches Some(tp) ==> (
        r matches Ok(o) && o.kind() == tp.0 && o.payload() == tp.1)),
        gunzip_of(data@) matches Some(raw) ==> (frame_tag_error(raw) matches Some(tb) ==> (
        r matches Err(e) && (e matches GirError::UnknownObjectType { tag, identifier }
            && tag@ == tag_display(tb) && (identifier matches Some(id) && id@ == sha@)))),
        gunzip_of(data@) matches Some(raw) ==> ((parse_frame(raw) is None && frame_tag_error(raw)
            is None) ==> (r matches Err(e) && (e matches GirError::MalformedObject { identifier }
            && identifier@ == sha@))),
{
    let raw = match gzip_decompress(data) {
        Ok(raw) => raw,
        Err(detail) => {
            return Err(GirError::Io { detail });
        },
    };
    let ghost raw_seq = raw@;
    let x = match find_byte(&raw, 32, 0) {
        Some(x) => x,
        None => {
            proof {
                lemma_first_index_none(raw_seq, 32);
            }
            return Err(GirError::MalformedObject { identifier: sha.to_owned() });
        },
    };
    proof {
        lemma_first_index_at(raw_seq, 32, x as int);
    }
    let y = match find_byte(&raw, 0, x) {
        Some(y) => y,
        None => {
            proof {
                assert(forall|k: int|
                    0 <= k < raw_seq.skip(x as int).len() ==> raw_seq.skip(x as int)[k] == raw_seq[
                    k + x]);
                lemma_first_index_none(raw_seq.skip(x as int), 0);
            }
            return Err(GirError::MalformedObject { identifier: sha.to_owned() });
        },
    };
    proof {
        assert(forall|k: int|
            0 <= k < raw_seq.skip(x as int).len() ==> raw_seq.skip(x as int)[k] == raw_seq[k + x]);
        lemma_first_index_at(raw_seq.skip(x as int), 0, y - x);
    }
    let field = subvec(&raw, x + 1, y);
    let size = match parse_decimal(&field) {
        Some(size) => size,
        None => {
            return Err(GirError::MalformedObject { identifier: sha.to_owned() });
        },
    };
    if raw.len() - y - 1 != size {
        return Err(GirError::MalformedObject { identifier: sha.to_owned() });
    }
    let tag = subvec(&raw, 0, x);
    let payload = subvec(&raw, y + 1, raw.len());
    assert(parse_frame_parts(raw_seq) matches Some(p) && p.0 == tag@ && p.2 == payload@);
    if bytes_eq(&tag, &tag_byte_vec(ObjectType::Commit)) {
        Ok(GitObject::Commit(GitCommit::new(payload)))
    } else if bytes_eq(&tag, &tag_byte_vec(ObjectType::Tree)) {
        Ok(GitObject::Tree(GitTree::new(payload)))
    } else if bytes_eq(&tag, &tag_byte_vec(ObjectType::Tag)) {
        Ok(GitObject::Tag(GitTag::new(payload)))
    } else if bytes_eq(&tag, &tag_byte_vec(ObjectType::Blob)) {
        Ok(GitObject::Blob(GitBlob::new(payload)))
    } else {
        Err(
            GirError::UnknownObjectType {
                tag: tag_display_string(tag),
                identifier: Some(sha.to_owned()),
            },
        )
    }
}

/// The read path once the caller has looked for the stored file: absent
/// bytes are "not found", not an error, and present bytes are decoded as by
/// `object_decode`.
pub fn object_read(data: Option<Vec<u8>>, sha: &str) -> (r: Result<Option<GitObject>, GirError>)
    ensures
        data is None ==> (r matches Ok(o) && o is None),
        data matches Some(d) ==> (gunzip_of(d@) is None ==> (r matches Err(e) && e is Io)),
        data matches Some(d) ==> (gunzip_of(d@) matches Some(raw) ==> (parse_frame(raw) matches
            Some(tp) ==> (r matches Ok(o) && (o matches Some(obj) && obj.kind() == tp.0
            && obj.payload() == tp.1)))),
        data matches Some(d) ==> (gunzip_of(d@) matches Some(raw) ==> (frame_tag_error(raw) matches
            Some(tb) ==> (r matches Err(e) && (e matches GirError::UnknownObjectType {
                tag,
                identifier,
            } && tag@ == tag_display(tb) && (identifier matches Some(id) && id@ == sha@))))),
        data matches Some(d) ==> (gunzip_of(d@) matches Some(raw) ==> ((parse_frame(raw) is None
            && frame_tag_error(raw) is None) ==> (r matches Err(e) && (e matches
        GirError::MalformedObject { identifier } && identifier@ == sha@)))),
{
    match data {
        None => Ok(None),
        Some(d) => match object_decode(&d, sha) {
            Ok(obj) => Ok(Some(obj)),
            Err(e) => Err(e),
        },
    }
}

/// Hashes raw bytes under the kind named by `fmt` and returns the identifier.
/// This is the dry-run hashing mode: it never touches storage, and an
/// unrecognized tag fails before anything could be written.
pub fn object_hash(fd: Vec<u8>, fmt: &str) -> (r: Result<String, GirError>)
    ensures
        forall|t: ObjectType| fmt@ == tag_chars(t) ==> (r matches Ok(id) && id@ == id_chars(
            t,
            fd@,
        )),
        r matches Err(e) ==> (forall|t: ObjectType| fmt@ != tag_chars(t)) && (e matches
            GirError::UnknownObjectType { tag, identifier } && tag@ == fmt@ && identifier is None),
        r is Ok <==> exists|t: ObjectType| fmt@ == tag_chars(t),
{
    match object_from_tag(fd, fmt) {
        Ok(obj) => {
            let id = object_id(&obj);
            proof {
                assert forall|t: ObjectType| fmt@ == tag_chars(t) implies id@ == id_chars(
                    t,
                    obj.payload(),
                ) by {
                    lemma_tag_chars_injective(t, obj.kind());
                }
            }
            Ok(id)
        },
        Err(e) => Err(e),
    }
}

/// Resolves a reference to the canonical identifier it denotes. For now a
/// passthrough that hands its input back unchanged: name resolution (short
/// hashes, branches, symbolic references) is not implemented, and callers
/// must not assume any resolution happens.
pub fn object_find(
    _repo: &GitRepository,
    name: &str,
    _fmt: Option<&str>,
    _follow: Option<bool>,
) -> (r: Result<String, GirError>)
    ensures
        r matches Ok(s) && s@ == name@,
{
    Ok(name.to_owned())
}

/// A kind's tag bytes contain neither a space nor a NUL, and there are at
/// least three of them.
proof fn lemma_tag_bytes_clean(t: ObjectType)
    ensures
        forall|i: int|
            0 <= i < tag_bytes(t).len() ==> #[trigger] tag_bytes(t)[i] != 32 && tag_bytes(t)[i]
                != 0,
        3 <= tag_bytes(t).len() <= 6,
{
}

/// Distinct kinds have distinct tag bytes.
proof fn lemma_tag_bytes_injective(t1: ObjectType, t2: ObjectType)
    requires
        tag_bytes(t1) == tag_bytes(t2),
    ensures
        t1 == t2,
{
    if t1 != t2 {
        assert(tag_bytes(t1).len() == tag_bytes(t2).len());
        assert(tag_bytes(t1)[0] == tag_bytes(t2)[0]);
        assert(false);
    }
}

/// How the read path splits a frame that was assembled from a tag, a
/// non-empty digit field and a payload: the structure is always recovered,
/// and the split succeeds exactly when the digit field spells the payload's
/// length.
proof fn lemma_loose_frame_parts(t: ObjectType, digits: Seq<u8>, p: Seq<u8>)
    requires
        is_digit_seq(digits),
        digits.len() > 0,
    ensures
        parse_frame_parts(loose_frame(tag_bytes(t), digits, p)) == (if dec_value(digits)
            <= usize::MAX as nat && dec_value(digits) == p.len() {
            Some((tag_bytes(t), digits, p))
        } else {
            None::<(Seq<u8>, Seq<u8>, Seq<u8>)>
        }),
{
    let tag = tag_bytes(t);
    let raw = loose_frame(tag, digits, p);
    let tlen = tag.len() as int;
    let dlen = digits.len() as int;
    lemma_tag_bytes_clean(t);
    assert(raw.len() == tlen + 1 + dlen + 1 + p.len());
    assert(raw[tlen] == 32);
    assert forall|i: int| 0 <= i < tlen implies raw[i] != 32 by {
        assert(raw[i] == tag[i]);
    }
    lemma_first_index_at(raw, 32, tlen);
    let ss = raw.skip(tlen);
    assert(ss =~= seq![32u8] + digits + seq![0u8] + p);
    assert(ss[1 + dlen] == 0);
    assert forall|i: int| 0 <= i < 1 + dlen implies ss[i] != 0 by {
        if i == 0 {
            assert(ss[0] == 32);
        } else {
            assert(ss[i] == digits[i - 1]);
            assert(is_digit(digits[i - 1]));
        }
    }
    lemma_first_index_at(ss, 0, 1 + dlen);
    let y = tlen + 1 + dlen;
    assert(raw.subrange(tlen + 1, y) =~= digits);
    assert(raw.subrange(0, tlen) =~= tag);
    assert(raw.subrange(y + 1, raw.len() as int) =~= p);
}

/// Round-trip fidelity of the frame format: parsing the canonical frame of
/// any kind and payload recovers exactly that kind and payload.
pub proof fn lemma_frame_round_trip(t: ObjectType, p: Seq<u8>)
    requires
        p.len() <= usize::MAX,
    ensures
        parse_frame(frame_of(t, p)) == Some((t, p)),
{
    lemma_dec_digits_are_digits(p.len());
    lemma_dec_digits_value(p.len());
    lemma_loose_frame_parts(t, dec_digits(p.len()), p);
    assert forall|t2: ObjectType| tag_bytes(t) == tag_bytes(t2) implies t2 == t by {
        lemma_tag_bytes_injective(t, t2);
    }
    assert(kind_of_tag(tag_bytes(t)) == Some(t));
}

/// A frame whose length field does not spell its payload's length parses as
/// neither an object nor an unknown tag: reading it fails as a malformed
/// object, never as a truncated or padded payload.
pub proof fn lemma_corrupt_length_malformed(t: ObjectType, digits: Seq<u8>, p: Seq<u8>)
    requires
        is_digit_seq(digits),
        digits.len() > 0,
        dec_value(digits) != p.len(),
    ensures
        parse_frame(loose_frame(tag_bytes(t), digits, p)) is None,
        frame_tag_error(loose_frame(tag_bytes(t), digits, p)) is None,
{
    lemma_loose_frame_parts(t, digits, p);
}

/// An object's identifier is a function of its kind and payload alone: the
/// same content hashed twice, or hashed with and without a repository at
/// hand, yields the same identifier.
pub proof fn lemma_identifier_deterministic(o1: GitObject, o2: GitObject)
    requires
        o1.kind() == o2.kind(),
        o1.payload() == o2.payload(),
    ensures
        id_chars(o1.kind(), o1.payload()) == id_chars(o2.kind(), o2.payload()),
{
}

/// Round-trip fidelity through storage: bytes that decompress to the
/// canonical frame of kind `t` and payload `p` — such as the compressed
/// frame `object_write` produces — decode to exactly that kind and payload.
pub proof fn lemma_read_of_write(z: Seq<u8>, t: ObjectType, p: Seq<u8>)
    requires
        gunzip_of(z) == Some(frame_of(t, p)),
        p.len() <= usize::MAX,
    ensures
        gunzip_of(z) matches Some(raw) && parse_frame(raw) == Some((t, p)),
{
    lemma_frame_round_trip(t, p);
}

} // verus!
