//! Social networks that posts go to, and the tags that posts carry.
use vstd::prelude::*;
use vstd::string::*;

use crate::feed::{Image, PostGuid};
use crate::delay::ErrorMessage;
use crate::models::Service;
use crate::time::Instant;
use crate::text::{hex_lower, spec_hex_lower, str_get, byte_slice, lemma_str_decodes, ascii_punctuation, is_ascii_punctuation, is_unicode_whitespace, str_eq, string_views, unicode_whitespace};

verus! {

/// The characters that std's `char::to_uppercase` yields for `c` (the full
/// Unicode upper-case mapping).
pub uninterp spec fn uppercase_of(c: char) -> Seq<char>;

/// `char::to_uppercase`, its characters collected into a `String`: the result
/// is the upper-case mapping of `c`, named `uppercase_of`.
#[verifier::external_body]
fn char_to_uppercase(c: char) -> (r: String)
    ensures
        r@ == uppercase_of(c),
{
    c.to_uppercase().collect()
}

/// Tags that are written in a fixed way, and how they are written.
pub open spec fn special_case_table() -> Seq<(Seq<char>, Seq<char>)> {
    seq![
        ("amd"@, "AMD"@),
        ("arm"@, "ARM"@),
        ("cad"@, "CAD"@),
        ("cli"@, "CLI"@),
        ("cpu"@, "CPU"@),
        ("css"@, "CSS"@),
        ("ext2"@, "ext2"@),
        ("ext3"@, "ext3"@),
        ("ext4"@, "ext4"@),
        ("fosdem"@, "FOSDEM"@),
        ("freebsd"@, "FreeBSD"@),
        ("gnu"@, "GNU"@),
        ("gpl"@, "GPL"@),
        ("gpu"@, "GPU"@),
        ("html"@, "HTML"@),
        ("http"@, "HTTP"@),
        ("ibook"@, "iBook"@),
        ("imac"@, "iMac"@),
        ("imap"@, "IMAP"@),
        ("ios"@, "iOS"@),
        ("ipad"@, "iPad"@),
        ("iphone"@, "iPhone"@),
        ("ipod"@, "iPod"@),
        ("javascript"@, "JavaScript"@),
        ("llvm"@, "LLVM"@),
        ("macos"@, "macOS"@),
        ("netbsd"@, "NetBSD"@),
        ("node-js"@, "NodeJS"@),
        ("nodejs"@, "NodeJS"@),
        ("oled"@, "OLED"@),
        ("openbsd"@, "OpenBSD"@),
        ("pdf"@, "PDF"@),
        ("php"@, "PHP"@),
        ("powerpc"@, "PowerPC"@),
        ("ppc"@, "PPC"@),
        ("pwa"@, "PWA"@),
        ("qnx"@, "QNX"@),
        ("quicktime"@, "QuickTime"@),
        ("raid"@, "RAID"@),
        ("rfc"@, "RFC"@),
        ("riscv"@, "RISCV"@),
        ("rss"@, "RSS"@),
        ("sql"@, "SQL"@),
        ("tls"@, "TLS"@),
        ("tui"@, "TUI"@),
        ("typescript"@, "TypeScript"@),
        ("uefi"@, "UEFI"@),
        ("unix"@, "UNIX"@),
        ("usb"@, "USB"@),
        ("vpn"@, "VPN"@),
        ("webdev"@, "WebDev"@),
        ("xfs"@, "XFS"@),
        ("zfs"@, "ZFS"@)
    ]
}

/// The replacement that `table` gives for `key`: that of its first entry with
/// that key, if any.
pub open spec fn table_lookup(table: Seq<(Seq<char>, Seq<char>)>, key: Seq<char>) -> Option<Seq<char>>
    decreases table.len(),
{
    if table.len() == 0 {
        None
    } else if table[0].0 == key {
        Some(table[0].1)
    } else {
        table_lookup(table.drop_first(), key)
    }
}

/// The way that `tag` is always written, if it is one of the special cases.
pub open spec fn special_case_of(tag: Seq<char>) -> Option<Seq<char>> {
    table_lookup(special_case_table(), tag)
}

/// The special cases as a table of string pairs.
fn special_case_entries() -> (v: Vec<(&'static str, &'static str)>)
    ensures
        v@.map_values(|e: (&'static str, &'static str)| (e.0@, e.1@)) =~= special_case_table(),
{
    vec![
        ("amd", "AMD"),
        ("arm", "ARM"),
        ("cad", "CAD"),
        ("cli", "CLI"),
        ("cpu", "CPU"),
        ("css", "CSS"),
        ("ext2", "ext2"),
        ("ext3", "ext3"),
        ("ext4", "ext4"),
        ("fosdem", "FOSDEM"),
        ("freebsd", "FreeBSD"),
        ("gnu", "GNU"),
        ("gpl", "GPL"),
        ("gpu", "GPU"),
        ("html", "HTML"),
        ("http", "HTTP"),
        ("ibook", "iBook"),
        ("imac", "iMac"),
        ("imap", "IMAP"),
        ("ios", "iOS"),
        ("ipad", "iPad"),
        ("iphone", "iPhone"),
        ("ipod", "iPod"),
        ("javascript", "JavaScript"),
        ("llvm", "LLVM"),
        ("macos", "macOS"),
        ("netbsd", "NetBSD"),
        ("node-js", "NodeJS"),
        ("nodejs", "NodeJS"),
        ("oled", "OLED"),
        ("openbsd", "OpenBSD"),
        ("pdf", "PDF"),
        ("php", "PHP"),
        ("powerpc", "PowerPC"),
        ("ppc", "PPC"),
        ("pwa", "PWA"),
        ("qnx", "QNX"),
        ("quicktime", "QuickTime"),
        ("raid", "RAID"),
        ("rfc", "RFC"),
        ("riscv", "RISCV"),
        ("rss", "RSS"),
        ("sql", "SQL"),
        ("tls", "TLS"),
        ("tui", "TUI"),
        ("typescript", "TypeScript"),
        ("uefi", "UEFI"),
        ("unix", "UNIX"),
        ("usb", "USB"),
        ("vpn", "VPN"),
        ("webdev", "WebDev"),
        ("xfs", "XFS"),
        ("zfs", "ZFS")
    ]
}

/// Looks `key` up in `table`.
fn lookup_entries(table: &Vec<(&'static str, &'static str)>, key: &str) -> (r: Option<&'static str>)
    ensures
        r matches Some(s) ==> table_lookup(table@.map_values(|e: (&'static str, &'static str)| (e.0@, e.1@)), key@) == Some(s@),
        r is None ==> table_lookup(table@.map_values(|e: (&'static str, &'static str)| (e.0@, e.1@)), key@) is None,
{
    let ghost full = table@.map_values(|e: (&'static str, &'static str)| (e.0@, e.1@));
    let n = table.len();
    let mut i: usize = 0;
    assert(full.skip(0) =~= full);
    while i < n
        invariant
            n == table@.len(),
            i <= n,
            full == table@.map_values(|e: (&'static str, &'static str)| (e.0@, e.1@)),
            table_lookup(full, key@) == table_lookup(full.skip(i as int), key@),
        decreases n - i,
    {
        let ghost rest = full.skip(i as int);
        assert(rest[0] == full[i as int]);
        assert(rest.drop_first() =~= full.skip(i + 1));
        let (k, v) = table[i];
        if str_eq(k, key) {
            return Some(v);
        }
        i = i + 1;
    }
    assert(full.skip(n as int).len() == 0);
    None
}

/// Whether `c` splits a tag into words: ASCII punctuation or white space.
pub open spec fn is_tag_separator(c: char) -> bool {
    is_ascii_punctuation(c) || is_unicode_whitespace(c)
}

/// `s` with its first character upper-cased.
pub open spec fn upper_first(s: Seq<char>) -> Seq<char> {
    if s.len() == 0 {
        seq![]
    } else {
        uppercase_of(s[0]) + s.drop_first()
    }
}

/// The words of `s` (the runs of characters between separators) written one
/// after the other, the first character of each upper-cased; `at_word_start`
/// tells whether the first character of `s` would begin a word.
pub open spec fn pascal_case(s: Seq<char>, at_word_start: bool) -> Seq<char>
    decreases s.len(),
{
    if s.len() == 0 {
        seq![]
    } else if is_tag_separator(s[0]) {
        pascal_case(s.drop_first(), true)
    } else if at_word_start {
        uppercase_of(s[0]) + pascal_case(s.drop_first(), false)
    } else {
        seq![s[0]] + pascal_case(s.drop_first(), false)
    }
}

/// How a raw tag is written as a hashtag: its fixed spelling if it is a
/// special case, else its words in PascalCase.
pub open spec fn spec_process_tag(raw: Seq<char>) -> Seq<char> {
    match special_case_of(raw) {
        Some(fixed) => fixed,
        None => pascal_case(raw, true),
    }
}

/// A string with no separator is left as it is inside a word.
proof fn lemma_pascal_case_no_separator(s: Seq<char>)
    requires
        forall|i: int| 0 <= i < s.len() ==> !is_tag_separator(#[trigger] s[i]),
    ensures
        pascal_case(s, false) == s,
        pascal_case(s, true) == upper_first(s),
    decreases s.len(),
{
    if s.len() > 0 {
        let rest = s.drop_first();
        assert forall|i: int| 0 <= i < rest.len() implies !is_tag_separator(#[trigger] rest[i]) by {
            assert(rest[i] == s[i + 1]);
        }
        lemma_pascal_case_no_separator(rest);
        assert(seq![s[0]] + rest =~= s);
    }
}

/// A tag with no separator is upper-cased at its first character only.
pub proof fn law_tag_without_separator(raw: Seq<char>)
    requires
        forall|i: int| 0 <= i < raw.len() ==> !is_tag_separator(#[trigger] raw[i]),
        special_case_of(raw) is None,
    ensures
        spec_process_tag(raw) == upper_first(raw),
{
    lemma_pascal_case_no_separator(raw);
}

/// No ASCII punctuation or white space is left by the words of a tag, given
/// that the upper-case forms of its other characters hold none.
proof fn lemma_pascal_case_no_split_chars(s: Seq<char>, at_word_start: bool)
    requires
        forall|i: int, k: int|
            0 <= i < s.len() && !(is_ascii_punctuation(s[i]) || is_unicode_whitespace(s[i]))
                && 0 <= k < uppercase_of(s[i]).len() ==> !(is_ascii_punctuation(#[trigger] uppercase_of(s[i])[k])
                || is_unicode_whitespace(uppercase_of(s[i])[k])),
    ensures
        forall|j: int|
            0 <= j < pascal_case(s, at_word_start).len() ==> !(is_ascii_punctuation(
                #[trigger] pascal_case(s, at_word_start)[j],
            ) || is_unicode_whitespace(pascal_case(s, at_word_start)[j])),
    decreases s.len(),
{
    if s.len() > 0 {
        let rest = s.drop_first();
        assert forall|i: int, k: int|
            0 <= i < rest.len() && !(is_ascii_punctuation(rest[i]) || is_unicode_whitespace(rest[i]))
                && 0 <= k < uppercase_of(rest[i]).len() implies !(is_ascii_punctuation(
            #[trigger] uppercase_of(rest[i])[k],
        ) || is_unicode_whitespace(uppercase_of(rest[i])[k])) by {
            assert(rest[i] == s[i + 1]);
        }
        lemma_pascal_case_no_split_chars(rest, true);
        lemma_pascal_case_no_split_chars(rest, false);
        let r = pascal_case(s, at_word_start);
        if is_tag_separator(s[0]) {
            assert(r == pascal_case(rest, true));
        } else {
            let head = if at_word_start {
                uppercase_of(s[0])
            } else {
                seq![s[0]]
            };
            let tail = pascal_case(rest, false);
            assert(r == head + tail);
            assert forall|j: int| 0 <= j < r.len() implies !(is_ascii_punctuation(#[trigger] r[j])
                || is_unicode_whitespace(r[j])) by {
                if j < head.len() {
                    if at_word_start {
                        assert(head[j] == uppercase_of(s[0])[j]);
                    }
                } else {
                    assert(r[j] == tail[j - head.len()]);
                }
            }
        }
    }
}

/// A hashtag made from a tag holds no ASCII punctuation and no white space
/// (every such character splits the tag into words and is dropped), unless
/// the upper-case form of one of the tag's other characters brings one in;
/// a tag with a fixed spelling is written that way.
pub proof fn law_no_split_chars_survive(raw: Seq<char>)
    requires
        special_case_of(raw) is None,
        forall|i: int, k: int|
            0 <= i < raw.len() && !(is_ascii_punctuation(raw[i]) || is_unicode_whitespace(raw[i]))
                && 0 <= k < uppercase_of(raw[i]).len() ==> !(is_ascii_punctuation(#[trigger] uppercase_of(raw[i])[k])
                || is_unicode_whitespace(uppercase_of(raw[i])[k])),
    ensures
        forall|j: int|
            0 <= j < spec_process_tag(raw).len() ==> !(is_ascii_punctuation(#[trigger] spec_process_tag(raw)[j])
                || is_unicode_whitespace(spec_process_tag(raw)[j])),
{
    lemma_pascal_case_no_split_chars(raw, true);
}

/// The first character of `input` upper-cased, the rest unchanged.
pub fn ucfirst(input: &str) -> (r: String)
    ensures
        r@ == upper_first(input@),
{
    let n = input.unicode_len();
    if n == 0 {
        return String::new();
    }
    let mut out = char_to_uppercase(input.get_char(0));
    out.append(input.substring_char(1, n));
    assert(input@.subrange(1, n as int) =~= input@.drop_first());
    out
}

/// Turns a tag with spaces, dashes and other punctuation into PascalCase,
/// or into its fixed spelling for the special cases.
pub fn process_tag(raw_tag: &str) -> (r: String)
    ensures
        r@ == spec_process_tag(raw_tag@),
{
    let table = special_case_entries();
    if let Some(fixed) = lookup_entries(&table, raw_tag) {
        return String::from_str(fixed);
    }
    let n = raw_tag.unicode_len();
    let mut any_separator = false;
    let mut i: usize = 0;
    while i < n
        invariant
            n == raw_tag@.len(),
            i <= n,
            !any_separator ==> forall|j: int| 0 <= j < i ==> !is_tag_separator(#[trigger] raw_tag@[j]),
        decreases n - i,
    {
        let c = raw_tag.get_char(i);
        if ascii_punctuation(c) || unicode_whitespace(c) {
            any_separator = true;
        }
        i = i + 1;
    }
    if !any_separator {
        proof {
            lemma_pascal_case_no_separator(raw_tag@);
        }
        return ucfirst(raw_tag);
    }
    let mut out = String::new();
    let mut at_word_start = true;
    let mut i: usize = 0;
    assert(raw_tag@.skip(0) =~= raw_tag@);
    assert(out@ + pascal_case(raw_tag@, true) =~= pascal_case(raw_tag@, true));
    while i < n
        invariant
            n == raw_tag@.len(),
            i <= n,
            out@ + pascal_case(raw_tag@.skip(i as int), at_word_start) == pascal_case(raw_tag@, true),
        decreases n - i,
    {
        let ghost rest = raw_tag@.skip(i as int);
        assert(rest.drop_first() =~= raw_tag@.skip(i + 1));
        assert(rest[0] == raw_tag@[i as int]);
        let c = raw_tag.get_char(i);
        if ascii_punctuation(c) || unicode_whitespace(c) {
            at_word_start = true;
        } else if at_word_start {
            let up = char_to_uppercase(c);
            out.append(up.as_str());
            at_word_start = false;
        } else {
            let one = raw_tag.substring_char(i, i + 1);
            assert(one@ =~= seq![c]);
            out.append(one);
        }
        proof {
            assert(out@ + pascal_case(raw_tag@.skip(i + 1), at_word_start) =~= pascal_case(raw_tag@, true));
        }
        i = i + 1;
    }
    assert(raw_tag@.skip(n as int) =~= Seq::<char>::empty());
    assert(out@ + Seq::<char>::empty() =~= out@);
    out
}

/// The views of a list of strings.
pub open spec fn processed_tags(raw_tags: Seq<String>) -> Seq<Seq<char>> {
    raw_tags.map_values(|t: String| spec_process_tag(t@))
}

/// Turn tags with spaces and dashes into PascalCase.
pub fn process_tags(raw_tags: &[String]) -> (r: Vec<String>)
    ensures
        string_views(r@) =~= processed_tags(raw_tags@),
{
    let mut out: Vec<String> = Vec::new();
    let n = raw_tags.len();
    let mut i: usize = 0;
    while i < n
        invariant
            n == raw_tags@.len(),
            i <= n,
            out@.len() == i,
            string_views(out@) =~= processed_tags(raw_tags@).take(i as int),
        decreases n - i,
    {
        let t = process_tag(raw_tags[i].as_str());
        let ghost before = out@;
        out.push(t);
        assert(out@[i as int]@ == spec_process_tag(raw_tags@[i as int]@));
        assert(string_views(out@) =~= processed_tags(raw_tags@).take(i + 1)) by {
            assert forall|j: int| 0 <= j < i implies out@[j] == before[j] by {}
        }
        i = i + 1;
    }
    out
}

/// Whether a network is only read (a dry run) or also written to.
#[derive(Debug, Clone, Copy, PartialEq, Eq, Structural)]
pub enum AccessMode {
    ReadOnly,
    ReadWrite,
}

/// A potential post for sending.
#[derive(Debug)]
pub struct PotentialPost {
    pub text: String,
    pub guid: PostGuid,
    pub image: Option<Image>,
}

/// A post that is ready for sending: it was not posted before.
#[derive(Debug)]
pub struct ReadyPost {
    text: String,
    guid: PostGuid,
    image: Option<Image>,
    hash: [u8; 32],
}

/// A post that has been posted, at an instant.
#[derive(Debug)]
pub struct Posted {
    pub text: String,
    pub guid: PostGuid,
    pub image: Option<Image>,
    pub hash: [u8; 32],
    pub at: Instant,
}

/// What the record of posts says of a post's text.
#[derive(Debug)]
pub enum AlreadyPosted {
    /// Not posted before; the hash under which it is to be recorded.
    No([u8; 32]),
    /// Posted before.
    Yes,
}

/// A failure of the database, by its message.
#[derive(Debug)]
pub struct DatabaseError(pub String);

/// The outcome of checking a potential post against the record of posts.
#[derive(Debug)]
pub enum ValidationResult {
    Ready(ReadyPost),
    Duplicate(PotentialPost),
    Error(DatabaseError),
}

impl ReadyPost {
    /// The text.
    pub closed spec fn spec_text(&self) -> Seq<char> {
        self.text@
    }

    /// The identifier of the item.
    pub closed spec fn spec_guid(&self) -> Seq<char> {
        self.guid@
    }

    /// The image of the post, if any.
    pub closed spec fn spec_image(&self) -> Option<Image> {
        self.image
    }

    /// The hash under which the post is recorded.
    pub closed spec fn spec_hash(&self) -> Seq<u8> {
        self.hash@
    }

    /// The text of the post.
    pub fn text(&self) -> (r: &str)
        ensures
            r@ == self.spec_text(),
    {
        self.text.as_str()
    }

    /// The image of the post, if any.
    pub fn image(&self) -> (r: Option<&Image>)
        ensures
            match r {
                Some(i) => self.spec_image() == Some(*i),
                None => self.spec_image() is None,
            },
    {
        self.image.as_ref()
    }

    /// The hash under which the post is recorded.
    pub fn hash(&self) -> (r: [u8; 32])
        ensures
            r@ == self.spec_hash(),
    {
        self.hash
    }
}

impl PotentialPost {
    /// Checks a potential post against what the record of posts says of its
    /// text: a post not made before is ready, one made before is a duplicate,
    /// and a failure of the database is passed on.
    pub fn validate(self, posted: Result<AlreadyPosted, DatabaseError>) -> (r: ValidationResult)
        ensures
            match posted {
                Ok(AlreadyPosted::No(hash)) => r matches ValidationResult::Ready(ready) && ready.spec_text() == self.text@
                    && ready.spec_guid() == self.guid@ && ready.spec_hash() == hash@ && ready.spec_image() == self.image,
                Ok(AlreadyPosted::Yes) => r matches ValidationResult::Duplicate(p) && p.text@ == self.text@
                    && p.guid@ == self.guid@ && p.image == self.image,
                Err(e) => r matches ValidationResult::Error(e2) && e2.0@ == e.0@,
            },
    {
        match posted {
            Ok(AlreadyPosted::No(hash)) => ValidationResult::Ready(
                ReadyPost { text: self.text, guid: self.guid, image: self.image, hash },
            ),
            Ok(AlreadyPosted::Yes) => ValidationResult::Duplicate(self),
            Err(err) => ValidationResult::Error(err),
        }
    }
}

impl Posted {
    /// A ready post, posted at the instant `at`.
    pub fn from_ready(post: ReadyPost, at: Instant) -> (p: Posted)
        ensures
            p.text@ == post.spec_text(),
            p.guid@ == post.spec_guid(),
            p.hash@ == post.spec_hash(),
            p.image == post.spec_image(),
            p.at == at,
    {
        Posted { text: post.text, guid: post.guid, image: post.image, hash: post.hash, at }
    }
}

/// The path of a temporary file, which its holder removes when done with it.
#[derive(Debug)]
pub struct RmOnDrop(String);

impl View for RmOnDrop {
    type V = Seq<char>;

    closed spec fn view(&self) -> Seq<char> {
        self.0@
    }
}

impl RmOnDrop {
    /// The temporary file at `path`.
    pub fn new(path: String) -> (r: RmOnDrop)
        ensures
            r@ == path@,
    {
        RmOnDrop(path)
    }

    /// The path of the file.
    pub fn path(&self) -> (r: &str)
        ensures
            r@ == self@,
    {
        self.0.as_str()
    }
}

/// An image downloaded to a temporary file.
#[derive(Debug)]
pub struct FetchedImage {
    pub path: RmOnDrop,
    pub content_type: Option<String>,
}

impl FetchedImage {
    /// An image downloaded to the temporary file `path`, with the media type
    /// the server gave.
    pub fn new(path: RmOnDrop, content_type: Option<String>) -> (r: FetchedImage)
        ensures
            r.path@ == path@,
            r.content_type == content_type,
    {
        FetchedImage { path, content_type }
    }

    /// The path of the file.
    pub fn path(&self) -> (r: &str)
        ensures
            r@ == self.path@,
    {
        self.path.path()
    }
}

/// The position of the last `.` in `name`, if any.
pub open spec fn last_dot(name: Seq<char>) -> Option<int> {
    if exists|i: int| 0 <= i < name.len() && name[i] == '.' {
        Some(choose|i: int| 0 <= i < name.len() && name[i] == '.' && forall|j: int| i < j < name.len() ==> name[j] != '.')
    } else {
        None
    }
}

/// The stem and extension of a file name, as std's `Path::file_stem` and
/// `Path::extension` give them for a path of one component `name`: no stem if
/// `name` is empty, `.` or `..`; the whole name and no extension if it has no
/// `.` after its first character; else the parts around its last `.`.
pub open spec fn spec_stem_and_extension(name: Seq<char>) -> Option<(Seq<char>, Option<Seq<char>>)> {
    if name.len() == 0 || name == seq!['.'] || name == seq!['.', '.'] {
        None
    } else {
        match last_dot(name) {
            Some(i) => if i == 0 {
                Some((name, None))
            } else {
                Some((name.take(i), Some(name.skip(i + 1))))
            },
            None => Some((name, None)),
        }
    }
}

/// The name of the temporary file an image is downloaded to: the stem of the
/// last path segment of its URL, `-` and a random number in hex, then `.` and
/// the extension if there is one; `feed-parrot-temp-file-` and the number when
/// the segment has no stem.
pub open spec fn spec_temp_file_name(last_segment: Option<Seq<char>>, rand: u64) -> Seq<char> {
    let stem = match last_segment {
        Some(seg) => spec_stem_and_extension(seg),
        None => None,
    };
    match stem {
        Some((s, ext)) => s + seq!['-'] + spec_hex_lower(rand as nat) + match ext {
            Some(e) => seq!['.'] + e,
            None => seq![],
        },
        None => "feed-parrot-temp-file-"@ + spec_hex_lower(rand as nat),
    }
}

/// What `url::Url::parse(text)` then `path_segments()` and `last()` give: the
/// message of the parse error, `None` for a URL that has no path segments, or
/// the last segment (if any).
pub uninterp spec fn url_last_segment(text: Seq<char>) -> Result<Option<Option<Seq<char>>>, Seq<char>>;

/// The view of an optional last segment.
pub open spec fn segment_view(s: Option<Option<String>>) -> Option<Option<Seq<char>>> {
    match s {
        Some(Some(t)) => Some(Some(t@)),
        Some(None) => Some(None),
        None => None,
    }
}

/// `url::Url::parse(text)`, then the last of its `path_segments()`, the
/// parse error by its message: the result named `url_last_segment`.
#[verifier::external_body]
fn parse_url_last_segment(text: &str) -> (r: Result<Option<Option<String>>, String>)
    ensures
        match r {
            Ok(s) => url_last_segment(text@) == Ok::<Option<Option<Seq<char>>>, Seq<char>>(segment_view(s)),
            Err(m) => url_last_segment(text@) == Err::<Option<Option<Seq<char>>>, Seq<char>>(m@),
        },
{
    match url::Url::parse(text) {
        Ok(u) => Ok(u.path_segments().map(|segments| segments.last().map(|last| last.to_string()))),
        Err(e) => Err(e.to_string()),
    }
}

/// The name of the temporary file that the image at `url` is downloaded to:
/// from the last path segment of the URL and `rand`; an error if the URL does
/// not parse or has no path segments.
pub open spec fn spec_image_file_name(url: Seq<char>, rand: u64) -> Result<Seq<char>, Seq<char>> {
    match url_last_segment(url) {
        Err(m) => Err(m),
        Ok(None) => Err("no path segments"@),
        Ok(Some(last)) => Ok(spec_temp_file_name(last, rand)),
    }
}

/// The name of the temporary file that the image at `url` is downloaded to.
pub fn image_file_name(url: &str, rand: u64) -> (r: Result<String, ErrorMessage>)
    ensures
        match spec_image_file_name(url@, rand) {
            Ok(t) => r matches Ok(n) && n@ == t,
            Err(m) => r matches Err(e) && e.0@ == m,
        },
{
    match parse_url_last_segment(url) {
        Err(m) => Err(ErrorMessage(m)),
        Ok(None) => Err(ErrorMessage(String::from_str("no path segments"))),
        Ok(Some(last)) => {
            let name = match &last {
                Some(l) => temp_file_name(Some(l.as_str()), rand),
                None => temp_file_name(None, rand),
            };
            Ok(name)
        },
    }
}

/// Splits a file name into its stem and extension.
pub fn stem_and_extension(name: &str) -> (r: Option<(String, Option<String>)>)
    ensures
        match r {
            Some((s, e)) => spec_stem_and_extension(name@) == Some(
                (s@, match e { Some(x) => Some(x@), None => None::<Seq<char>> }),
            ),
            None => spec_stem_and_extension(name@) is None,
        },
{
    let n = name.unicode_len();
    if n == 0 {
        return None;
    }
    if n <= 2 {
        let all_dots = name.get_char(0) == '.' && (n == 1 || name.get_char(1) == '.');
        if all_dots {
            assert(name@ =~= seq!['.'] || name@ =~= seq!['.', '.']);
            return None;
        }
    }
    assert(!(name@ == seq!['.'] || name@ == seq!['.', '.'])) by {
        if name@ == seq!['.'] || name@ == seq!['.', '.'] {
            assert(name@[0] == '.');
        }
    }
    let mut k = n;
    let mut found = false;
    while k > 0 && !found
        invariant
            n == name@.len(),
            k <= n,
            forall|j: int| k <= j < n ==> name@[j] != '.',
            found ==> 0 < k && name@[k - 1] == '.',
        decreases 2 * k + if found { 0int } else { 1int },
    {
        if name.get_char(k - 1) == '.' {
            found = true;
        } else {
            k = k - 1;
        }
    }
    if k == 0 {
        assert(last_dot(name@) is None);
        return Some((String::from_str(name), None));
    }
    let i = k - 1;
    assert(name@[i as int] == '.');
    assert(last_dot(name@) == Some(i as int)) by {
        let c = choose|c: int| 0 <= c < name@.len() && name@[c] == '.' && forall|j: int| c < j < name@.len() ==> name@[j] != '.';
        if c < i {
            assert(name@[i as int] != '.');
        }
        if c > i {
            assert(name@[c] != '.');
        }
    }
    if i == 0 {
        return Some((String::from_str(name), None));
    }
    let stem = name.substring_char(0, i);
    let ext = name.substring_char(i + 1, n);
    assert(stem@ =~= name@.take(i as int));
    assert(ext@ =~= name@.skip(i + 1));
    Some((String::from_str(stem), Some(String::from_str(ext))))
}

/// The name of the temporary file an image at a URL is downloaded to.
pub fn temp_file_name(last_segment: Option<&str>, rand: u64) -> (r: String)
    ensures
        r@ == spec_temp_file_name(
            match last_segment {
                Some(s) => Some(s@),
                None => None,
            },
            rand,
        ),
{
    let split = match last_segment {
        Some(seg) => stem_and_extension(seg),
        None => None,
    };
    let hex = hex_lower(rand);
    match split {
        Some((stem, ext)) => {
            let mut name = stem;
            push_char_dash(&mut name);
            name.append(hex.as_str());
            match ext {
                Some(e) => {
                    let mut dotted = String::new();
                    crate::text::push_char(&mut dotted, '.');
                    dotted.append(e.as_str());
                    name.append(dotted.as_str());
                },
                None => {
                    assert(name@ + Seq::<char>::empty() =~= name@);
                },
            }
            name
        },
        None => {
            let mut name = String::from_str("feed-parrot-temp-file-");
            name.append(hex.as_str());
            name
        },
    }
}

/// Appends `-`.
fn push_char_dash(s: &mut String)
    ensures
        final(s)@ == old(s)@ + seq!['-'],
{
    crate::text::push_char(s, '-');
}

} // verus!
