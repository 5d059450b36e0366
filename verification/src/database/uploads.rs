//! Uploaded torrents and magnets, kept in the uploads directory.

use vstd::prelude::*;
use vstd::utf8::encode_utf8;

use super::save_paths::{save_path_of, SavePathDB};
use super::DatabaseError;
use crate::guards::{base64_url_text, encode_base64_url, is_base64_url_char};
use crate::paths::{after_last_slash, before_first_dot, join, joined};
use crate::text::{
    all_ascii, ascii_lower, concatenated, contains, contains_char, ends_with, has_infix, has_prefix, has_suffix, occurs_at, owned,
    starts_with, str_eq, to_lowercase, trim_end_matches, trim_suffix_all, lowercase_text,
};

verus! {

#[verifier::external_type_specification]
#[verifier::external_body]
pub struct ExSingleTarget(hightorrent::SingleTarget);

#[verifier::external_type_specification]
#[verifier::external_body]
pub struct ExInfoHashError(hightorrent::InfoHashError);

/// An ASCII hexadecimal digit.
pub open spec fn is_hex_digit(c: char) -> bool {
    ||| ('0' <= c && c <= '9')
    ||| ('a' <= c && c <= 'f')
    ||| ('A' <= c && c <= 'F')
}

/// What `hightorrent` accepts as an info hash: 40 or 64 ASCII hexadecimal digits.
pub open spec fn is_info_hash(s: Seq<char>) -> bool {
    &&& (s.len() == 40 || s.len() == 64)
    &&& forall|i: int| 0 <= i < s.len() ==> is_hex_digit(#[trigger] s[i])
}

/// Trusted: `hightorrent::SingleTarget::from_str`, with the target's text
/// (`SingleTarget::as_str`). Through `InfoHash::new` it accepts exactly the
/// strings of ASCII hex digits of length 40 or 64, and keeps them lowercased
/// (`str::to_lowercase`, which on ASCII text is [`ascii_lower`]).
#[verifier::external_body]
fn single_target_from_str(hash: &str) -> (res: Result<(hightorrent::SingleTarget, String), hightorrent::InfoHashError>)
    ensures
        res is Ok <==> is_info_hash(hash@),
        res matches Ok((_, text)) ==> text@ == ascii_lower(hash@),
{
    let target = <hightorrent::SingleTarget as std::str::FromStr>::from_str(hash)?;
    let text = target.as_str().to_string();
    Ok((target, text))
}

/// A Base64-URL character as Base64 writes it: `-` is `+`, `_` is `/`.
pub open spec fn unescaped_char(c: char) -> char {
    if c == '-' {
        '+'
    } else if c == '_' {
        '/'
    } else {
        c
    }
}

/// The Base64 text for the Base64-URL text `s` (what `base64_url::unescape`
/// gives): `-` becomes `+`, `_` becomes `/`, and `=` pads the UTF-8 length
/// to a multiple of 4.
pub open spec fn unescaped(s: Seq<char>) -> Seq<char> {
    let len = encode_utf8(s).len();
    let pad: nat = if len % 4 == 0 { 0 } else { (4 - len % 4) as nat };
    s.map_values(|c: char| unescaped_char(c)) + Seq::new(pad, |i: int| '=')
}

/// A character of the standard Base64 alphabet (padding excluded).
pub open spec fn is_base64_char(c: char) -> bool {
    ||| ('A' <= c && c <= 'Z')
    ||| ('a' <= c && c <= 'z')
    ||| ('0' <= c && c <= '9')
    ||| c == '+'
    ||| c == '/'
}

/// `t` is Base64 text in its padded form: characters of the standard
/// alphabet, then fewer than four `=`, for a length that is a multiple of 4.
pub open spec fn is_padded_base64(t: Seq<char>) -> bool {
    &&& t.len() % 4 == 0
    &&& exists|k: int| #[trigger] padding_starts_at(t, k)
}

/// The characters of `t` before `k` are of the standard Base64 alphabet,
/// and the fewer than four from `k` on are `=`.
pub open spec fn padding_starts_at(t: Seq<char>, k: int) -> bool {
    &&& 0 <= k <= t.len()
    &&& t.len() - k < 4
    &&& forall|i: int| 0 <= i < k ==> is_base64_char(#[trigger] t[i])
    &&& forall|i: int| k <= i < t.len() ==> #[trigger] t[i] == '='
}

/// Law: Base64-URL text becomes padded standard Base64 text of the same
/// characters: letters and digits are kept, `-` and `_` become `+` and `/`,
/// and `=` pads the text to a multiple of four characters, fewer than four
/// being added.
pub proof fn lemma_unescaped_is_padded_base64(s: Seq<char>)
    requires
        forall|i: int| 0 <= i < s.len() ==> is_base64_url_char(#[trigger] s[i]),
    ensures
        is_padded_base64(unescaped(s)),
        unescaped(s).len() % 4 == 0,
        s.len() <= unescaped(s).len() < s.len() + 4,
        forall|i: int| 0 <= i < s.len() ==> is_base64_char(#[trigger] unescaped(s)[i]),
        forall|i: int| s.len() <= i < unescaped(s).len() ==> #[trigger] unescaped(s)[i] == '=',
        forall|i: int|
            0 <= i < s.len() && s[i] != '-' && s[i] != '_' ==> #[trigger] unescaped(s)[i] == s[i],
        forall|i: int| 0 <= i < s.len() && s[i] == '-' ==> #[trigger] unescaped(s)[i] == '+',
        forall|i: int| 0 <= i < s.len() && s[i] == '_' ==> #[trigger] unescaped(s)[i] == '/',
{
    assert(vstd::utf8::is_ascii_chars(s)) by {
        assert forall|i: int| 0 <= i < s.len() implies '\0' <= #[trigger] s[i] <= '\u{7f}' by {
            assert(is_base64_url_char(s[i]));
        }
    }
    vstd::utf8::is_ascii_chars_encode_utf8(s);
    let t = unescaped(s);
    let k = s.len() as int;
    assert forall|i: int| 0 <= i < k implies is_base64_char(#[trigger] t[i]) by {
        assert(is_base64_url_char(s[i]));
        assert(t[i] == unescaped_char(s[i]));
    }
    assert forall|i: int| k <= i < t.len() implies #[trigger] t[i] == '=' by {}
    assert(padding_starts_at(t, k));
}

/// The Base64 text for the Base64-URL text `s`.
fn unescape_base64_url(s: &str) -> (res: String)
    ensures
        res@ == unescaped(s@),
{
    let v = crate::text::chars_of(s);
    let mut out: Vec<char> = Vec::new();
    let mut i: usize = 0;
    while i < v.len()
        invariant
            v@ == s@,
            i <= v@.len(),
            out@.len() == i,
            forall|k: int| 0 <= k < i ==> out@[k] == unescaped_char(#[trigger] s@[k]),
        decreases v@.len() - i,
    {
        let c = v[i];
        let d = if c == '-' {
            '+'
        } else if c == '_' {
            '/'
        } else {
            c
        };
        out.push(d);
        i = i + 1;
    }
    let ghost mapped = out@;
    assert(mapped =~= s@.map_values(|c: char| unescaped_char(c)));
    let bytes = s.as_bytes();
    let len = bytes.len();
    assert(len == encode_utf8(s@).len());
    let pad: usize = if len % 4 == 0 { 0 } else { 4 - len % 4 };
    let mut k: usize = 0;
    while k < pad
        invariant
            k <= pad,
            out@ == mapped + Seq::new(k as nat, |j: int| '='),
        decreases pad - k,
    {
        out.push('=');
        k = k + 1;
        assert(out@ =~= mapped + Seq::new(k as nat, |j: int| '='));
    }
    crate::text::string_of(out.as_slice())
}

/// The two kinds of uploads.
#[derive(Clone, Copy, Debug, PartialEq, Eq, Structural)]
pub enum UploadType {
    Magnet,
    Torrent,
}

/// The file extension of an upload kind.
pub open spec fn suffix_text(kind: UploadType) -> Seq<char> {
    match kind {
        UploadType::Magnet => ".magnet"@,
        UploadType::Torrent => ".torrent"@,
    }
}

impl UploadType {
    pub fn as_ref(&self) -> (res: &'static str)
        ensures
            res@ == suffix_text(*self),
    {
        match self {
            UploadType::Magnet => ".magnet",
            UploadType::Torrent => ".torrent",
        }
    }
}

/// A UploadID represents a torrent/magnet hosted in the upload dir.
/// It does not need to exist, but ensures that no illegal characters
/// permit path traversal ('/').
pub struct UploadID {
    hash: String,
    kind: UploadType,
    complete: super::UnicodePath,
}

impl View for UploadID {
    /// The hash, the kind, and the file name in the uploads directory.
    type V = (Seq<char>, UploadType, Seq<char>);

    closed spec fn view(&self) -> (Seq<char>, UploadType, Seq<char>) {
        (self.hash@, self.kind, self.complete@)
    }
}

/// The upload id made of `hash` and `kind`, or the refused id text.
pub open spec fn new_id(hash: Seq<char>, kind: UploadType) -> Result<(Seq<char>, UploadType, Seq<char>), Seq<char>> {
    if hash.contains('/') {
        Err(hash)
    } else {
        Ok((hash, kind, lowercase_text(hash) + suffix_text(kind)))
    }
}

/// The upload id named by the text `s` (a hash followed by its extension).
pub open spec fn id_from_text(s: Seq<char>) -> Result<(Seq<char>, UploadType, Seq<char>), Seq<char>> {
    if has_suffix(s, ".torrent"@) {
        new_id(trim_suffix_all(s, ".torrent"@), UploadType::Torrent)
    } else if has_suffix(s, ".magnet"@) {
        new_id(trim_suffix_all(s, ".magnet"@), UploadType::Magnet)
    } else {
        Err(s)
    }
}

/// The outcome of building an upload id, by view; only `InvalidContentID` can occur.
pub open spec fn id_outcome(r: Result<UploadID, DatabaseError>) -> Option<Result<(Seq<char>, UploadType, Seq<char>), Seq<char>>> {
    match r {
        Ok(id) => Some(Ok(id@)),
        Err(DatabaseError::InvalidContentID { id }) => Some(Err(id@)),
        Err(_) => None,
    }
}

/// Validity of an upload id: the file name is the lowercased hash and the extension.
pub open spec fn id_valid(v: (Seq<char>, UploadType, Seq<char>)) -> bool {
    new_id(v.0, v.1) == Ok::<(Seq<char>, UploadType, Seq<char>), Seq<char>>(v)
}

/// The request that adds an upload to the torrent client.
pub struct AddRequest {
    /// Whether the file is a magnet or a torrent file
    pub kind: UploadType,
    /// Path of the uploaded file
    pub file: String,
    /// Tags: the Base64 form of the final path, then the collection
    pub tags: Vec<String>,
    /// Where the client saves the content
    pub save_path: String,
}

impl UploadID {
    #[verifier::type_invariant]
    closed spec fn valid(self) -> bool {
        id_valid(self@)
    }

    fn new(hash: &str, kind: UploadType) -> (res: Result<UploadID, DatabaseError>)
        ensures
            id_outcome(res) == Some(new_id(hash@, kind)),
    {
        if contains_char(hash, '/') {
            Err(DatabaseError::InvalidContentID { id: owned(hash) })
        } else {
            let lower = to_lowercase(hash);
            let complete = concatenated(lower.as_str(), kind.as_ref());
            Ok(UploadID { hash: owned(hash), kind, complete: super::UnicodePath::new(complete.as_str()) })
        }
    }

    pub fn magnet(hash: &str) -> (res: Result<UploadID, DatabaseError>)
        ensures
            id_outcome(res) == Some(new_id(hash@, UploadType::Magnet)),
    {
        Self::new(hash, UploadType::Magnet)
    }

    pub fn torrent(hash: &str) -> (res: Result<UploadID, DatabaseError>)
        ensures
            id_outcome(res) == Some(new_id(hash@, UploadType::Torrent)),
    {
        Self::new(hash, UploadType::Torrent)
    }

    /// Used for passing UploadID around the system in stringy types (eg. in HTTP forms)
    pub fn from_str(s: &str) -> (res: Result<UploadID, DatabaseError>)
        ensures
            id_outcome(res) == Some(id_from_text(s@)),
    {
        proof {
            reveal_strlit(".torrent");
            reveal_strlit(".magnet");
        }
        if ends_with(s, ".torrent") {
            let hash = trim_end_matches(s, ".torrent");
            Self::torrent(hash.as_str())
        } else if ends_with(s, ".magnet") {
            let hash = trim_end_matches(s, ".magnet");
            Self::magnet(hash.as_str())
        } else {
            Err(DatabaseError::InvalidContentID { id: owned(s) })
        }
    }

    pub fn hash(&self) -> (res: &str)
        ensures
            res@ == self@.0,
    {
        self.hash.as_str()
    }

    /// The kind of upload.
    pub fn kind(&self) -> (res: UploadType)
        ensures
            res == self@.1,
    {
        self.kind
    }

    /// The file name of the upload (lowercased hash and extension).
    pub fn as_str(&self) -> (res: &str)
        ensures
            res@ == self@.2,
            id_valid(self@),
    {
        proof {
            use_type_invariant(self);
        }
        self.complete.as_str()
    }

    pub fn to_string(&self) -> (res: String)
        ensures
            res@ == self@.2,
    {
        self.complete.to_string()
    }

    pub fn duplicate(&self) -> (res: UploadID)
        ensures
            res@ == self@,
    {
        proof {
            use_type_invariant(self);
        }
        UploadID { hash: owned(self.hash.as_str()), kind: self.kind, complete: self.complete.duplicate() }
    }

    /// The torrent client target of this upload. The hash must be an info hash.
    pub fn single_target(&self) -> (res: hightorrent::SingleTarget)
        requires
            is_info_hash(self@.0),
    {
        match single_target_from_str(self.hash.as_str()) {
            Ok((t, _)) => t,
            Err(_) => vstd::pervasive::unreached(),
        }
    }

    /// Same as [`UploadID::single_target`].
    pub fn to_single_target(&self) -> (res: hightorrent::SingleTarget)
        requires
            is_info_hash(self@.0),
    {
        self.single_target()
    }

    /// Like [`UploadID::single_target`], but `None` where the hash is not an info hash.
    pub fn try_single_target(&self) -> (res: Option<hightorrent::SingleTarget>)
        ensures
            res is Some <==> is_info_hash(self@.0),
    {
        match single_target_from_str(self.hash.as_str()) {
            Ok((t, _)) => Some(t),
            Err(_) => None,
        }
    }

    /// The torrent client target of this upload as text, cut to 40
    /// characters (what `SingleTarget::truncated` gives: the lowercased hash,
    /// or the start of a 64-digit one). The hash must be an info hash.
    pub fn truncated_target(&self) -> (res: String)
        requires
            is_info_hash(self@.0),
        ensures
            res@ == ascii_lower(self@.0).subrange(0, 40),
    {
        match single_target_from_str(self.hash.as_str()) {
            Ok((_, text)) => {
                let v = crate::text::chars_of(text.as_str());
                let mut out: Vec<char> = Vec::new();
                let mut i: usize = 0;
                while i < 40
                    invariant
                        v@ == ascii_lower(self@.0),
                        v@.len() >= 40,
                        i <= 40,
                        out@ == v@.subrange(0, i as int),
                    decreases 40 - i,
                {
                    out.push(v[i]);
                    i = i + 1;
                }
                crate::text::string_of(out.as_slice())
            },
            Err(_) => vstd::pervasive::unreached(),
        }
    }

    /// What adding this upload to the torrent client sends: the uploaded
    /// file, the tags (the Base64 form of `final_path`, then `collection`) and
    /// the save path. `None` where the id has no save path.
    pub fn add_request(&self, uploads: &UploadDB, save_paths: &SavePathDB, final_path: &UploadPath, collection: &str) -> (res: Option<AddRequest>)
        ensures
            match save_path_of(save_paths@, self@.2) {
                Some(sp) => res matches Some(r) && r.kind == self@.1 && r.file@ == joined(uploads@, self@.2)
                    && r.save_path@ == sp && r.tags@.len() == 2
                    && r.tags@[0]@ == unescaped(base64_url_text(encode_utf8(final_path@)))
                    && is_padded_base64(r.tags@[0]@)
                    && r.tags@[1]@ == collection@,
                None => res is None,
            },
    {
        match save_paths.try_compute(self) {
            None => None,
            Some(save_path) => {
                let encoded = encode_base64_url(final_path.as_ref().as_bytes());
                proof {
                    lemma_unescaped_is_padded_base64(encoded@);
                }
                let tag = unescape_base64_url(encoded.as_str());
                let mut tags: Vec<String> = Vec::new();
                tags.push(tag);
                tags.push(owned(collection));
                Some(AddRequest {
                    kind: self.kind,
                    file: uploads.upload_path(self),
                    tags,
                    save_path: owned(save_path.as_ref()),
                })
            },
        }
    }
}

/// A path component that neither is absolute nor climbs with `../`.
pub open spec fn doesnt_traverse(p: Seq<char>) -> bool {
    !has_prefix(p, seq!['/']) && !has_infix(p, seq!['.', '.', '/'])
}

/// `.` for an empty path, the path otherwise.
pub open spec fn normalized(p: Seq<char>) -> Seq<char> {
    if p.len() == 0 {
        seq!['.']
    } else {
        p
    }
}

/// `targetdir` placed under `basedir`, `.` standing for "here".
pub open spec fn completed(basedir: Seq<char>, targetdir: Seq<char>) -> Seq<char> {
    if basedir == seq!['.'] && targetdir == seq!['.'] {
        seq!['.']
    } else if basedir == seq!['.'] {
        seq!['.', '/'] + targetdir
    } else if targetdir == seq!['.'] {
        basedir
    } else {
        basedir + seq!['/'] + targetdir
    }
}

/// The upload path of `basedir` and `targetdir`, `None` if one of them traverses.
pub open spec fn upload_path_of(basedir: Seq<char>, targetdir: Seq<char>) -> Option<Seq<char>> {
    if !doesnt_traverse(basedir) || !doesnt_traverse(targetdir) {
        None
    } else {
        Some(completed(normalized(basedir), normalized(targetdir)))
    }
}

fn doesnt_traverse_path(path: &str) -> (res: bool)
    ensures
        res == doesnt_traverse(path@),
{
    proof {
        reveal_strlit("/");
        reveal_strlit("../");
        assert("/"@ == seq!['/']);
        assert("../"@ == seq!['.', '.', '/']);
    }
    if starts_with(path, "/") || contains(path, "../") {
        false
    } else {
        true
    }
}

fn normalize_path(path: &str) -> (res: String)
    ensures
        res@ == normalized(path@),
{
    if path.is_empty() {
        proof {
            reveal_strlit(".");
        }
        owned(".")
    } else {
        owned(path)
    }
}

fn complete_path(basedir: &str, targetdir: &str) -> (res: String)
    ensures
        res@ == completed(basedir@, targetdir@),
{
    proof {
        reveal_strlit(".");
        reveal_strlit("./");
        reveal_strlit("/");
        assert("."@ == seq!['.']);
        assert("./"@ == seq!['.', '/']);
        assert("/"@ == seq!['/']);
    }
    let base_is_dot = str_eq(basedir, ".");
    let target_is_dot = str_eq(targetdir, ".");
    if base_is_dot && target_is_dot {
        owned(".")
    } else if base_is_dot {
        concatenated("./", targetdir)
    } else if target_is_dot {
        owned(basedir)
    } else {
        let with_slash = concatenated(basedir, "/");
        concatenated(with_slash.as_str(), targetdir)
    }
}

/// Where an uploaded torrent/magnet will be archived, relative to the upload dir
pub struct UploadPath(String);

impl View for UploadPath {
    type V = Seq<char>;

    closed spec fn view(&self) -> Seq<char> {
        self.0@
    }
}

impl UploadPath {
    pub fn from_str(basedir: &str, targetdir: &str) -> (res: Option<UploadPath>)
        ensures
            match upload_path_of(basedir@, targetdir@) {
                Some(p) => res matches Some(u) && u@ == p,
                None => res is None,
            },
    {
        if !doesnt_traverse_path(basedir) || !doesnt_traverse_path(targetdir) {
            None
        } else {
            let basedir = normalize_path(basedir);
            let targetdir = normalize_path(targetdir);
            let complete_path = complete_path(basedir.as_str(), targetdir.as_str());
            Some(UploadPath(complete_path))
        }
    }

    pub fn to_string(&self) -> (res: String)
        ensures
            res@ == self@,
    {
        owned(self.0.as_str())
    }

    pub fn as_ref(&self) -> (res: &str)
        ensures
            res@ == self@,
    {
        self.0.as_str()
    }

    /// The path inside `upload_dir`.
    pub fn absolute(&self, upload_dir: &str) -> (res: String)
        ensures
            res@ == joined(upload_dir@, self@),
    {
        join(upload_dir, self.0.as_str())
    }
}

/// The uploads directory.
pub struct UploadDB {
    basedir: String,
}

impl View for UploadDB {
    type V = Seq<char>;

    closed spec fn view(&self) -> Seq<char> {
        self.basedir@
    }
}

impl UploadDB {
    pub fn from(basedir: &str) -> (res: UploadDB)
        ensures
            res@ == basedir@,
    {
        UploadDB { basedir: owned(basedir) }
    }

    /// Whether an upload must be written: not when it is already stored.
    pub fn needs_write(present: bool) -> (res: bool)
        ensures
            res == !present,
    {
        !present
    }

    /// The outcome of persisting an upload, given what writing its file gave
    /// (`None` when it was already stored and nothing was written).
    pub fn persisted(written: Option<Result<(), crate::writable_dir::WritableDirError>>) -> (res: Result<(), DatabaseError>)
        ensures
            match written {
                None => res is Ok,
                Some(Ok(())) => res is Ok,
                Some(Err(e)) => res matches Err(DatabaseError::PersistUpload { source }) && source == e,
            },
    {
        match written {
            None => Ok(()),
            Some(Ok(())) => Ok(()),
            Some(Err(e)) => Err(DatabaseError::PersistUpload { source: e }),
        }
    }

    /// Where the upload `entry` is stored.
    pub fn upload_path(&self, entry: &UploadID) -> (res: String)
        ensures
            res@ == joined(self@, entry@.2),
    {
        join(self.basedir.as_str(), entry.as_str())
    }
}

} // verus!

verus! {

proof fn lemma_ascii_lower_concat(a: Seq<char>, b: Seq<char>)
    ensures
        ascii_lower(a + b) == ascii_lower(a) + ascii_lower(b),
        all_ascii(a) && all_ascii(b) ==> all_ascii(a + b),
{
    assert(ascii_lower(a + b) =~= ascii_lower(a) + ascii_lower(b));
    if all_ascii(a) && all_ascii(b) {
        assert forall|i: int| 0 <= i < (a + b).len() implies ((#[trigger] (a + b)[i]) as int) < 128 by {
            if i < a.len() {
                assert((a + b)[i] == a[i]);
            } else {
                assert((a + b)[i] == b[i - a.len()]);
            }
        }
    }
}

proof fn lemma_ascii_lower_ascii(s: Seq<char>)
    requires
        all_ascii(s),
    ensures
        all_ascii(ascii_lower(s)),
        ascii_lower(ascii_lower(s)) == ascii_lower(s),
        s.contains('/') <==> ascii_lower(s).contains('/'),
        s.contains('.') <==> ascii_lower(s).contains('.'),
        ascii_lower(s).len() == s.len(),
{
    assert forall|i: int| 0 <= i < ascii_lower(s).len() implies (#[trigger] ascii_lower(s)[i] as int) < 128 by {
        assert(ascii_lower(s)[i] == crate::text::ascii_lower_char(s[i]));
    }
    assert(ascii_lower(ascii_lower(s)) =~= ascii_lower(s));
    if s.contains('/') {
        let i = choose|i: int| 0 <= i < s.len() && s[i] == '/';
        assert(ascii_lower(s)[i] == '/');
    }
    if ascii_lower(s).contains('/') {
        let i = choose|i: int| 0 <= i < ascii_lower(s).len() && ascii_lower(s)[i] == '/';
        assert(s[i] == '/');
    }
    if s.contains('.') {
        let i = choose|i: int| 0 <= i < s.len() && s[i] == '.';
        assert(ascii_lower(s)[i] == '.');
    }
    if ascii_lower(s).contains('.') {
        let i = choose|i: int| 0 <= i < ascii_lower(s).len() && ascii_lower(s)[i] == '.';
        assert(s[i] == '.');
    }
}

proof fn lemma_suffix_facts(kind: UploadType)
    ensures
        all_ascii(suffix_text(kind)),
        ascii_lower(suffix_text(kind)) == suffix_text(kind),
        !suffix_text(kind).contains('/'),
        suffix_text(kind).len() >= 7,
        suffix_text(kind)[0] == '.',
        suffix_text(kind).last() == 't',
{
    reveal_strlit(".magnet");
    reveal_strlit(".torrent");
    let s = suffix_text(kind);
    assert forall|i: int| 0 <= i < s.len() implies (#[trigger] s[i] as int) < 128 by {}
    assert(ascii_lower(s) =~= s);
    assert forall|i: int| 0 <= i < s.len() implies #[trigger] s[i] != '/' by {}
}

/// Law: the file name of an upload names it back. Reading the file name of
/// the id made of an ASCII `hash` and `kind` with [`UploadID::from_str`] gives
/// an id of the same kind and the same file name, whose hash is the
/// lowercased hash — unless the lowercased hash itself ends with the extension,
/// which reading strips as well.
pub proof fn lemma_id_text_roundtrip(hash: Seq<char>, kind: UploadType)
    requires
        !hash.contains('/'),
        all_ascii(hash),
        !has_suffix(ascii_lower(hash), suffix_text(kind)),
    ensures
        new_id(hash, kind) matches Ok(v) && id_from_text(v.2) == Ok::<(Seq<char>, UploadType, Seq<char>), Seq<char>>(
            (ascii_lower(hash), kind, v.2),
        ),
{
    reveal_strlit(".magnet");
    reveal_strlit(".torrent");
    lemma_ascii_lower_ascii(hash);
    lemma_suffix_facts(kind);
    let low = ascii_lower(hash);
    let suf = suffix_text(kind);
    let text = low + suf;
    assert(new_id(hash, kind) == Ok::<(Seq<char>, UploadType, Seq<char>), Seq<char>>((hash, kind, text)));
    assert(text.subrange(text.len() - suf.len(), text.len() as int) =~= suf);
    assert(text.subrange(0, text.len() - suf.len()) =~= low);
    assert(has_suffix(text, suf));
    assert(trim_suffix_all(text, suf) == trim_suffix_all(low, suf));
    assert(trim_suffix_all(low, suf) == low);
    lemma_ascii_lower_concat(low, suf);
    match kind {
        UploadType::Torrent => {
            assert(id_from_text(text) == new_id(low, UploadType::Torrent));
        },
        UploadType::Magnet => {
            let t = ".torrent"@;
            if has_suffix(text, t) {
                assert(text.subrange(text.len() - t.len(), text.len() as int)[t.len() - 2] == text[text.len() - 2]);
                assert(text[text.len() - 2] == suf[suf.len() - 2]);
                assert(false);
            }
            assert(id_from_text(text) == new_id(low, UploadType::Magnet));
        },
    }
    assert(lowercase_text(low) == low);
}

proof fn lemma_after_last_slash_plain(s: Seq<char>)
    requires
        !s.contains('/'),
    ensures
        after_last_slash(s) == s,
    decreases s.len(),
{
    if s.len() > 0 {
        assert(!s.drop_last().contains('/')) by {
            if s.drop_last().contains('/') {
                let i = choose|i: int| 0 <= i < s.drop_last().len() && s.drop_last()[i] == '/';
                assert(s[i] == '/');
            }
        }
        lemma_after_last_slash_plain(s.drop_last());
        assert(s.drop_last().push(s.last()) =~= s);
    }
}

proof fn lemma_before_dot_concat(s: Seq<char>, t: Seq<char>)
    requires
        !s.contains('.'),
        t.len() > 0,
        t[0] == '.',
    ensures
        before_first_dot(s + t) == s,
    decreases s.len(),
{
    if s.len() == 0 {
        assert(s + t == t);
    } else {
        let rest = s.subrange(1, s.len() as int);
        assert(!rest.contains('.')) by {
            if rest.contains('.') {
                let i = choose|i: int| 0 <= i < rest.len() && rest[i] == '.';
                assert(s[i + 1] == '.');
            }
        }
        lemma_before_dot_concat(rest, t);
        assert((s + t).subrange(1, (s + t).len() as int) =~= rest + t);
        assert(seq![s[0]] + rest =~= s);
    }
}

/// The save path of an upload with an ASCII hash free of `/` and `.` is
/// the base directory joined with the lowercased hash.
proof fn lemma_save_path_of_ascii(basedir: Seq<char>, hash: Seq<char>, kind: UploadType)
    requires
        all_ascii(hash),
        !hash.contains('/'),
        !hash.contains('.'),
    ensures
        new_id(hash, kind) matches Ok(v) && save_path_of(basedir, v.2) == Some(joined(basedir, ascii_lower(hash))),
{
    lemma_ascii_lower_ascii(hash);
    lemma_suffix_facts(kind);
    let low = ascii_lower(hash);
    let suf = suffix_text(kind);
    let text = low + suf;
    lemma_ascii_lower_concat(low, suf);
    assert(lowercase_text(text) == text);
    assert(text.last() == 't');
    assert(crate::paths::strip_trailing(text) == text);
    assert(!text.contains('/')) by {
        if text.contains('/') {
            let i = choose|i: int| 0 <= i < text.len() && text[i] == '/';
            if i < low.len() {
                assert(low[i] == '/');
            } else {
                assert(suf[i - low.len()] == '/');
            }
        }
    }
    lemma_after_last_slash_plain(text);
    assert(text.len() >= 7);
    assert(text != seq!['.']);
    assert(text != seq!['.', '.']);
    lemma_before_dot_concat(low, suf);
}

proof fn lemma_info_hash_plain(hash: Seq<char>)
    requires
        is_info_hash(hash),
    ensures
        all_ascii(hash),
        !hash.contains('/'),
        !hash.contains('.'),
{
    assert(all_ascii(hash)) by {
        assert forall|i: int| 0 <= i < hash.len() implies (#[trigger] hash[i] as int) < 128 by {
            assert(is_hex_digit(hash[i]));
        }
    }
    assert(!hash.contains('/')) by {
        if hash.contains('/') {
            let i = choose|i: int| 0 <= i < hash.len() && hash[i] == '/';
            assert(is_hex_digit(hash[i]));
        }
    }
    assert(!hash.contains('.')) by {
        if hash.contains('.') {
            let i = choose|i: int| 0 <= i < hash.len() && hash[i] == '.';
            assert(is_hex_digit(hash[i]));
        }
    }
}

/// Law: uploads are content-addressed. The torrent client saves the content
/// of an upload whose hash is an info hash directly under the downloads
/// directory, in a folder named after the lowercased hash.
pub proof fn lemma_save_path_is_hash(basedir: Seq<char>, hash: Seq<char>, kind: UploadType)
    requires
        is_info_hash(hash),
    ensures
        new_id(hash, kind) matches Ok(v) && save_path_of(basedir, v.2) == Some(joined(basedir, ascii_lower(hash))),
{
    lemma_info_hash_plain(hash);
    lemma_save_path_of_ascii(basedir, hash, kind);
}

/// Law: two uploads whose ASCII hashes (free of `/` and `.`) differ only in
/// letter case, whatever their kinds, get one save path: the base directory
/// joined with the lowercased hash.
pub proof fn lemma_save_path_same_hash(
    basedir: Seq<char>,
    hash1: Seq<char>,
    kind1: UploadType,
    hash2: Seq<char>,
    kind2: UploadType,
)
    requires
        all_ascii(hash1),
        all_ascii(hash2),
        !hash1.contains('/') && !hash1.contains('.'),
        !hash2.contains('/') && !hash2.contains('.'),
        ascii_lower(hash1) == ascii_lower(hash2),
    ensures
        new_id(hash1, kind1) matches Ok(v1) && new_id(hash2, kind2) matches Ok(v2)
            && save_path_of(basedir, v1.2) == save_path_of(basedir, v2.2)
            && save_path_of(basedir, v1.2) == Some(joined(basedir, ascii_lower(hash1))),
{
    lemma_save_path_of_ascii(basedir, hash1, kind1);
    lemma_save_path_of_ascii(basedir, hash2, kind2);
}

/// Law: the save path of an upload whose ASCII hash is non-empty and free of
/// `/` and `.` lies directly inside a base directory that does not end in
/// `/`: it is the directory, a `/`, then one component, the lowercased hash.
pub proof fn lemma_save_path_directly_inside(basedir: Seq<char>, hash: Seq<char>, kind: UploadType)
    requires
        all_ascii(hash),
        hash.len() > 0,
        !hash.contains('/'),
        !hash.contains('.'),
        basedir.len() > 0,
        basedir.last() != '/',
    ensures
        new_id(hash, kind) matches Ok(v) && save_path_of(basedir, v.2) == Some(basedir + seq!['/'] + ascii_lower(hash)),
        ascii_lower(hash).len() > 0,
        !ascii_lower(hash).contains('/'),
        after_last_slash(basedir + seq!['/'] + ascii_lower(hash)) == ascii_lower(hash),
{
    lemma_save_path_of_ascii(basedir, hash, kind);
    lemma_ascii_lower_ascii(hash);
    let low = ascii_lower(hash);
    assert(low[0] == crate::text::ascii_lower_char(hash[0]));
    assert(low[0] != '/') by {
        if low[0] == '/' {
            assert(low.contains('/'));
        }
    }
    lemma_after_last_slash_tail(basedir + seq!['/'], low);
}

/// Law: an upload path is relative, so it resolves inside the directory it
/// is joined to.
pub proof fn lemma_upload_path_inside(basedir: Seq<char>, targetdir: Seq<char>, dir: Seq<char>)
    requires
        upload_path_of(basedir, targetdir) is Some,
    ensures
        !has_prefix(upload_path_of(basedir, targetdir).unwrap(), seq!['/']),
        has_prefix(joined(dir, upload_path_of(basedir, targetdir).unwrap()), dir),
{
    let p = upload_path_of(basedir, targetdir).unwrap();
    let b = normalized(basedir);
    let t = normalized(targetdir);
    assert(b.len() > 0 && b[0] != '/') by {
        if basedir.len() > 0 && basedir[0] == '/' {
            assert(basedir.subrange(0, 1) =~= seq!['/']);
        }
    }
    assert(t.len() > 0);
    assert(p.len() > 0 && p[0] != '/');
    if has_prefix(p, seq!['/']) {
        assert(p.subrange(0, 1)[0] == '/');
    }
    let j = joined(dir, p);
    assert(j.subrange(0, dir.len() as int) =~= dir);
}

/// `p` has a `..` component starting at `i`.
pub open spec fn parent_component_at(p: Seq<char>, i: int) -> bool {
    &&& 0 <= i && i + 2 <= p.len()
    &&& p[i] == '.' && p[i + 1] == '.'
    &&& i == 0 || p[i - 1] == '/'
    &&& i + 2 == p.len() || p[i + 2] == '/'
}

/// `p` climbs to a parent directory: one of its components is `..`.
pub open spec fn climbs(p: Seq<char>) -> bool {
    exists|i: int| parent_component_at(p, i)
}

/// The last component of `p` is `..`.
pub open spec fn ends_in_parent(p: Seq<char>) -> bool {
    parent_component_at(p, p.len() - 2)
}

proof fn lemma_part_stays_below(x: Seq<char>)
    requires
        doesnt_traverse(x),
        !ends_in_parent(x),
    ensures
        !climbs(x),
{
    if climbs(x) {
        let i = choose|i: int| parent_component_at(x, i);
        if i + 2 < x.len() {
            assert(x.subrange(i, i + 3) =~= seq!['.', '.', '/']);
            assert(occurs_at(x, seq!['.', '.', '/'], i));
        }
    }
}

/// Law: an upload path climbs to no parent directory, so it stays below the
/// directory it is joined to. It fails where the base or the target
/// directory itself ends in a `..` component (such as a base directory `..`),
/// which the `../` check lets through.
pub proof fn lemma_upload_path_stays_below(basedir: Seq<char>, targetdir: Seq<char>)
    requires
        upload_path_of(basedir, targetdir) is Some,
        !ends_in_parent(basedir),
        !ends_in_parent(targetdir),
    ensures
        !climbs(upload_path_of(basedir, targetdir).unwrap()),
{
    let b = normalized(basedir);
    let t = normalized(targetdir);
    let p = upload_path_of(basedir, targetdir).unwrap();
    lemma_part_stays_below(basedir);
    lemma_part_stays_below(targetdir);
    assert(!climbs(b) && !climbs(t)) by {
        if basedir.len() == 0 {
            assert(!parent_component_at(b, 0));
        }
        if targetdir.len() == 0 {
            assert(!parent_component_at(t, 0));
        }
    }
    if b == seq!['.'] && t == seq!['.'] {
        assert(!parent_component_at(p, 0));
    } else if t == seq!['.'] && b != seq!['.'] {
        assert(p == b);
    } else {
        let a = if b == seq!['.'] { seq!['.'] } else { b };
        assert(!climbs(a));
        assert(p =~= a + seq!['/'] + t);
        if climbs(p) {
            let i = choose|i: int| parent_component_at(p, i);
            if i + 2 <= a.len() {
                assert(parent_component_at(a, i));
            } else if i < a.len() + 1 {
                assert(p[a.len() as int] == '/');
            } else {
                let j = i - a.len() - 1;
                assert(p[i] == t[j] && p[i + 1] == t[j + 1]);
                if j > 0 {
                    assert(p[i - 1] == t[j - 1]);
                }
                if j + 2 < t.len() {
                    assert(p[i + 2] == t[j + 2]);
                }
                assert(parent_component_at(t, j));
            }
        }
    }
}

/// `p` starts at the root.
pub open spec fn is_absolute_text(p: Seq<char>) -> bool {
    p.len() > 0 && p[0] == '/'
}

/// `p` holds `../` somewhere.
pub open spec fn climbs_text(p: Seq<char>) -> bool {
    exists|i: int| 0 <= i && i + 3 <= p.len() && #[trigger] p[i] == '.' && p[i + 1] == '.' && p[i + 2] == '/'
}

/// Law: only traversal refuses a place. An upload place is accepted exactly
/// when neither the base nor the target directory starts with `/` or holds
/// `../`; any other characters are accepted.
pub proof fn lemma_only_traversal_refused(basedir: Seq<char>, targetdir: Seq<char>)
    ensures
        upload_path_of(basedir, targetdir) is Some <==> (!is_absolute_text(basedir) && !climbs_text(basedir)
            && !is_absolute_text(targetdir) && !climbs_text(targetdir)),
{
    lemma_traversal_text(basedir);
    lemma_traversal_text(targetdir);
}

proof fn lemma_traversal_text(p: Seq<char>)
    ensures
        doesnt_traverse(p) <==> (!is_absolute_text(p) && !climbs_text(p)),
{
    if has_prefix(p, seq!['/']) {
        assert(p.subrange(0, 1)[0] == p[0]);
    }
    if is_absolute_text(p) {
        assert(p.subrange(0, 1) =~= seq!['/']);
    }
    if has_infix(p, seq!['.', '.', '/']) {
        let i = choose|i: int| occurs_at(p, seq!['.', '.', '/'], i);
        assert(p.subrange(i, i + 3)[0] == p[i]);
        assert(p.subrange(i, i + 3)[1] == p[i + 1]);
        assert(p.subrange(i, i + 3)[2] == p[i + 2]);
        assert(climbs_text(p));
    }
    if climbs_text(p) {
        let i = choose|i: int| 0 <= i && i + 3 <= p.len() && #[trigger] p[i] == '.' && p[i + 1] == '.' && p[i + 2] == '/';
        assert(p.subrange(i, i + 3) =~= seq!['.', '.', '/']);
        assert(occurs_at(p, seq!['.', '.', '/'], i));
    }
}

/// Law: an accepted place with a base and a target directory (neither empty
/// nor `.`) is the base directory, `/`, then the target directory; with
/// neither, it is `.`.
pub proof fn lemma_upload_path_parts(basedir: Seq<char>, targetdir: Seq<char>)
    requires
        upload_path_of(basedir, targetdir) is Some,
    ensures
        basedir.len() > 0 && basedir != seq!['.'] && targetdir.len() > 0 && targetdir != seq!['.'] ==> upload_path_of(
            basedir,
            targetdir,
        ) == Some(basedir + seq!['/'] + targetdir),
        (basedir.len() == 0 || basedir == seq!['.']) && (targetdir.len() == 0 || targetdir == seq!['.'])
            ==> upload_path_of(basedir, targetdir) == Some(seq!['.']),
        basedir.len() > 0 && basedir != seq!['.'] && (targetdir.len() == 0 || targetdir == seq!['.'])
            ==> upload_path_of(basedir, targetdir) == Some(basedir),
{
}

/// Law: an upload id keeps its hash and kind, and its file name ends with
/// the kind's extension; for an ASCII hash the file name starts with the
/// lowercased hash. A hash holding `/` is refused.
pub proof fn lemma_upload_file_name_parts(hash: Seq<char>, kind: UploadType)
    ensures
        hash.contains('/') <==> new_id(hash, kind) is Err,
        new_id(hash, kind) matches Ok(v) ==> v.0 == hash && v.1 == kind && has_suffix(v.2, suffix_text(kind)),
        all_ascii(hash) ==> (new_id(hash, kind) matches Ok(v) ==> v.2.subrange(0, hash.len() as int) == ascii_lower(hash)
            && v.2.len() == hash.len() + suffix_text(kind).len()),
{
    if !hash.contains('/') {
        let low = lowercase_text(hash);
        let t = low + suffix_text(kind);
        assert(t.subrange(t.len() - suffix_text(kind).len(), t.len() as int) =~= suffix_text(kind));
        if all_ascii(hash) {
            lemma_ascii_lower_ascii(hash);
            assert(t.subrange(0, hash.len() as int) =~= ascii_lower(hash));
        }
    }
}

/// Law: the file of an upload with an ASCII hash lies directly in the uploads
/// directory: its last path component is the upload's file name.
pub proof fn lemma_upload_file_in_dir(dir: Seq<char>, hash: Seq<char>, kind: UploadType)
    requires
        !hash.contains('/'),
        all_ascii(hash),
        dir.len() > 0,
    ensures
        new_id(hash, kind) matches Ok(v) && has_prefix(joined(dir, v.2), dir) && after_last_slash(joined(dir, v.2)) == v.2,
{
    lemma_ascii_lower_ascii(hash);
    lemma_suffix_facts(kind);
    let low = ascii_lower(hash);
    let suf = suffix_text(kind);
    let text = low + suf;
    assert(!text.contains('/')) by {
        if text.contains('/') {
            let i = choose|i: int| 0 <= i < text.len() && text[i] == '/';
            if i < low.len() {
                assert(low[i] == '/');
            } else {
                assert(suf[i - low.len()] == '/');
            }
        }
    }
    assert(text[0] != '/') by {
        if low.len() > 0 {
            assert(text[0] == low[0]);
        } else {
            assert(text[0] == suf[0]);
        }
    }
    let j = joined(dir, text);
    assert(j.subrange(0, dir.len() as int) =~= dir);
    lemma_after_last_slash_tail(j.subrange(0, j.len() - text.len()), text);
    assert(j.subrange(0, j.len() - text.len()) + text =~= j);
}

proof fn lemma_after_last_slash_tail(a: Seq<char>, s: Seq<char>)
    requires
        !s.contains('/'),
        a.len() == 0 || a.last() == '/',
    ensures
        after_last_slash(a + s) == s,
    decreases s.len(),
{
    if s.len() == 0 {
        assert(a + s =~= a);
    } else {
        assert(!s.drop_last().contains('/')) by {
            if s.drop_last().contains('/') {
                let i = choose|i: int| 0 <= i < s.drop_last().len() && s.drop_last()[i] == '/';
                assert(s[i] == '/');
            }
        }
        lemma_after_last_slash_tail(a, s.drop_last());
        assert((a + s).drop_last() =~= a + s.drop_last());
        assert(s.last() != '/') by {
            assert(s[s.len() - 1] == s.last());
        }
        assert(s.drop_last().push(s.last()) =~= s);
    }
}

} // verus!
