//! Character classes and string building blocks shared by the library.
use vstd::prelude::*;
use vstd::string::*;

verus! {

/// std's `char::is_ascii_punctuation`: one of
/// ``!"#$%&'()*+,-./:;<=>?@[\]^_`{|}~``.
pub open spec fn is_ascii_punctuation(c: char) -> bool {
    ||| ('!' <= c && c <= '/')
    ||| (':' <= c && c <= '@')
    ||| ('[' <= c && c <= '`')
    ||| ('{' <= c && c <= '~')
}

/// std's `char::is_whitespace`: the characters with the Unicode
/// `White_Space` property.
pub open spec fn is_unicode_whitespace(c: char) -> bool {
    ||| ('\u{9}' <= c && c <= '\u{d}')
    ||| c == ' '
    ||| c == '\u{85}'
    ||| c == '\u{a0}'
    ||| c == '\u{1680}'
    ||| ('\u{2000}' <= c && c <= '\u{200a}')
    ||| c == '\u{2028}'
    ||| c == '\u{2029}'
    ||| c == '\u{202f}'
    ||| c == '\u{205f}'
    ||| c == '\u{3000}'
}

/// Tests `is_ascii_punctuation`.
pub fn ascii_punctuation(c: char) -> (r: bool)
    ensures
        r == is_ascii_punctuation(c),
{
    ('!' <= c && c <= '/') || (':' <= c && c <= '@') || ('[' <= c && c <= '`') || ('{' <= c
        && c <= '~')
}

/// Tests `is_unicode_whitespace`.
pub fn unicode_whitespace(c: char) -> (r: bool)
    ensures
        r == is_unicode_whitespace(c),
{
    ('\u{9}' <= c && c <= '\u{d}') || c == ' ' || c == '\u{85}' || c == '\u{a0}' || c
        == '\u{1680}' || ('\u{2000}' <= c && c <= '\u{200a}') || c == '\u{2028}' || c
        == '\u{2029}' || c == '\u{202f}' || c == '\u{205f}' || c == '\u{3000}'
}

/// The views of optional string slices.
pub open spec fn opt_str_view(o: Option<&str>) -> Option<Seq<char>> {
    match o {
        Some(s) => Some(s@),
        None => None,
    }
}

/// std's `String::push`: appends `c` to `s`.
#[verifier::external_body]
pub fn push_char(s: &mut String, c: char)
    ensures
        final(s)@ == old(s)@.push(c),
{
    s.push(c)
}

/// The characters that the UTF-8 bytes `bytes[start..end]` encode, as std's
/// `str::get(start..end)` gives them: `None` unless `start <= end <= len` and
/// both ends fall on character boundaries.
pub open spec fn byte_slice(bytes: Seq<u8>, start: int, end: int) -> Option<Seq<char>> {
    if 0 <= start <= end <= bytes.len() && vstd::utf8::is_char_boundary(bytes, start)
        && vstd::utf8::is_char_boundary(bytes, end) {
        Some(vstd::utf8::decode_utf8(bytes.subrange(start, end)))
    } else {
        None
    }
}

/// The characters of a string are the decoding of its UTF-8 bytes.
pub proof fn lemma_str_decodes(s: &str)
    ensures
        vstd::utf8::decode_utf8(s.spec_bytes()) == s@,
        vstd::utf8::valid_utf8(s.spec_bytes()),
{
    vstd::utf8::encode_utf8_decode_utf8(s@);
    vstd::utf8::encode_utf8_valid_utf8(s@);
}

/// std's `str::get(start..end)` on byte offsets.
pub fn str_get(s: &str, start: usize, end: usize) -> (r: Option<&str>)
    ensures
        r matches Some(t) ==> byte_slice(s.spec_bytes(), start as int, end as int) == Some(t@),
        r is None ==> byte_slice(s.spec_bytes(), start as int, end as int) is None,
{
    proof {
        lemma_str_decodes(s);
    }
    let n = s.as_bytes().len();
    if start <= end && end <= n && s.is_char_boundary(start) && s.is_char_boundary(end) {
        let (head, _) = s.split_at(end);
        proof {
            lemma_str_decodes(head);
            vstd::utf8::encode_utf8_decode_utf8(head@);
        }
        let ghost hb = head.spec_bytes();
        assert(hb =~= s.spec_bytes().subrange(0, end as int));
        proof {
            lemma_boundary_in_prefix(s.spec_bytes(), start as int, end as int);
        }
        let (_, mid) = head.split_at(start);
        proof {
            lemma_str_decodes(mid);
        }
        assert(mid.spec_bytes() =~= s.spec_bytes().subrange(start as int, end as int));
        Some(mid)
    } else {
        None
    }
}

/// A boundary of a string is a boundary of each longer prefix.
proof fn lemma_boundary_in_prefix(bytes: Seq<u8>, start: int, end: int)
    requires
        vstd::utf8::valid_utf8(bytes),
        0 <= start <= end <= bytes.len(),
        vstd::utf8::is_char_boundary(bytes, start),
        vstd::utf8::is_char_boundary(bytes, end),
    ensures
        vstd::utf8::valid_utf8(bytes.subrange(0, end)),
        vstd::utf8::is_char_boundary(bytes.subrange(0, end), start),
{
    vstd::utf8::valid_utf8_split(bytes, end);
    let prefix = bytes.subrange(0, end);
    if start == end {
        vstd::utf8::is_char_boundary_start_end_of_seq(prefix);
    } else if start > 0 {
        vstd::utf8::is_char_boundary_iff_not_is_continuation_byte(bytes, start);
        vstd::utf8::is_char_boundary_iff_not_is_continuation_byte(prefix, start);
    }
}

/// The lower-case hexadecimal digit for `d`.
pub open spec fn hex_digit(d: nat) -> char {
    if d < 10 {
        ((48 + d) as u8) as char
    } else {
        ((87 + d) as u8) as char
    }
}

/// `n` in lower-case hexadecimal without leading zeros (`0` for zero), as
/// std's `{:x}` formats it.
pub open spec fn spec_hex_lower(n: nat) -> Seq<char>
    decreases n,
{
    if n < 16 {
        seq![hex_digit(n)]
    } else {
        spec_hex_lower(n / 16) + seq![hex_digit(n % 16)]
    }
}

/// Appends `n` in lower-case hexadecimal to `out`.
fn push_hex(n: u64, out: &mut String)
    ensures
        final(out)@ == old(out)@ + spec_hex_lower(n as nat),
    decreases n,
{
    if n >= 16 {
        push_hex(n / 16, out);
    }
    let d = (n % 16) as u8;
    let c = if d < 10 {
        (48 + d) as char
    } else {
        (87 + d) as char
    };
    assert(c == hex_digit((n % 16) as nat));
    push_char(out, c);
    assert(n >= 16 ==> spec_hex_lower(n as nat) == spec_hex_lower((n / 16) as nat) + seq![c]);
}

/// Formats `n` in lower-case hexadecimal.
pub fn hex_lower(n: u64) -> (r: String)
    ensures
        r@ == spec_hex_lower(n as nat),
{
    let mut out = String::new();
    push_hex(n, &mut out);
    assert(Seq::<char>::empty() + spec_hex_lower(n as nat) =~= spec_hex_lower(n as nat));
    out
}

/// `n` in decimal without leading zeros (`0` for zero), as std writes it.
pub open spec fn spec_decimal(n: nat) -> Seq<char>
    decreases n,
{
    if n < 10 {
        seq![hex_digit(n)]
    } else {
        spec_decimal(n / 10) + seq![hex_digit(n % 10)]
    }
}

/// `n` in decimal, with `-` before a negative number, as std writes it.
pub open spec fn spec_int_text(n: int) -> Seq<char> {
    if n < 0 {
        seq!['-'] + spec_decimal((-n) as nat)
    } else {
        spec_decimal(n as nat)
    }
}

/// Appends `n` in decimal to `out`.
fn push_decimal(n: u64, out: &mut String)
    ensures
        final(out)@ == old(out)@ + spec_decimal(n as nat),
    decreases n,
{
    if n >= 10 {
        push_decimal(n / 10, out);
    }
    let d = (n % 10) as u8;
    let c = (48 + d) as char;
    assert(c == hex_digit((n % 10) as nat));
    push_char(out, c);
    assert(n >= 10 ==> spec_decimal(n as nat) == spec_decimal((n / 10) as nat) + seq![c]);
}

/// Appends `n` in decimal, with `-` before a negative number, to `out`.
pub fn push_int(n: i64, out: &mut String)
    ensures
        final(out)@ == old(out)@ + spec_int_text(n as int),
{
    if n < 0 {
        push_char(out, '-');
        let magnitude: u64 = if n == i64::MIN {
            9223372036854775808u64
        } else {
            (-n) as u64
        };
        let ghost mid = out@;
        push_decimal(magnitude, out);
        assert(out@ =~= old(out)@ + (seq!['-'] + spec_decimal((-n) as nat)));
    } else {
        push_decimal(n as u64, out);
    }
}

/// How std's `Debug` writes a string: in double quotes, with quotes,
/// backslashes and characters that are not printable escaped.
pub uninterp spec fn str_debug_text(s: Seq<char>) -> Seq<char>;

/// `format!("{:?}", s)`: the text named `str_debug_text`.
#[verifier::external_body]
pub(crate) fn str_debug(s: &str) -> (r: String)
    ensures
        r@ == str_debug_text(s@),
{
    format!("{:?}", s)
}

/// Whether two strings hold the same characters.
pub fn str_eq(a: &str, b: &str) -> (r: bool)
    ensures
        r == (a@ == b@),
{
    let n = a.unicode_len();
    if n != b.unicode_len() {
        return false;
    }
    let mut i: usize = 0;
    while i < n
        invariant
            n == a@.len() == b@.len(),
            i <= n,
            forall|j: int| 0 <= j < i ==> a@[j] == b@[j],
        decreases n - i,
    {
        if a.get_char(i) != b.get_char(i) {
            return false;
        }
        i = i + 1;
    }
    assert(a@ =~= b@);
    true
}

/// Whether `s` holds the character `c`.
pub fn contains_char(s: &str, c: char) -> (r: bool)
    ensures
        r == s@.contains(c),
{
    let n = s.unicode_len();
    let mut i: usize = 0;
    while i < n
        invariant
            n == s@.len(),
            i <= n,
            forall|j: int| 0 <= j < i ==> s@[j] != c,
        decreases n - i,
    {
        if s.get_char(i) == c {
            assert(s@[i as int] == c);
            return true;
        }
        i = i + 1;
    }
    false
}

/// The elements of `list` joined, with `sep` between each two.
pub open spec fn seq_join(list: Seq<Seq<char>>, sep: Seq<char>) -> Seq<char>
    decreases list.len(),
{
    if list.len() == 0 {
        seq![]
    } else if list.len() == 1 {
        list[0]
    } else {
        seq_join(list.drop_last(), sep) + sep + list.last()
    }
}

/// Joining with no separator: the first piece, then the others joined.
pub proof fn lemma_seq_join_prepend(a: Seq<char>, rest: Seq<Seq<char>>)
    ensures
        seq_join(seq![a] + rest, seq![]) == a + seq_join(rest, seq![]),
    decreases rest.len(),
{
    let l = seq![a] + rest;
    if rest.len() == 0 {
        assert(l =~= seq![a]);
        assert(a + Seq::<char>::empty() =~= a);
    } else {
        assert(l.drop_last() =~= seq![a] + rest.drop_last());
        assert(l.last() == rest.last());
        lemma_seq_join_prepend(a, rest.drop_last());
        if rest.len() == 1 {
            assert(rest.drop_last() =~= Seq::<Seq<char>>::empty());
            assert(seq_join(l, seq![]) =~= a + seq_join(rest, seq![]));
        } else {
            assert(seq_join(l, seq![]) =~= a + seq_join(rest, seq![]));
        }
    }
}

/// The views of a list of strings.
pub open spec fn string_views(list: Seq<String>) -> Seq<Seq<char>> {
    list.map_values(|s: String| s@)
}

/// Joins `list` with `sep` between each two elements.
pub fn join_strings(list: &Vec<String>, sep: &str) -> (res: String)
    ensures
        res@ == seq_join(string_views(list@), sep@),
{
    let mut res = String::new();
    let ghost views = string_views(list@);
    let n = list.len();
    let mut i: usize = 0;
    while i < n
        invariant
            n == list@.len(),
            i <= n,
            views == string_views(list@),
            res@ == seq_join(views.take(i as int), sep@),
        decreases n - i,
    {
        assert(views.take(i + 1).drop_last() =~= views.take(i as int));
        if i != 0 {
            res.append(sep);
        } else {
            assert(views.take(1) =~= seq![views[0]]);
        }
        res.append(list[i].as_str());
        i = i + 1;
    }
    assert(views.take(n as int) =~= views);
    res
}

} // verus!
