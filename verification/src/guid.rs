use vstd::prelude::*;
use vstd::string::StringSliceAdditionalSpecFns;
use vstd::utf8::*;
use crate::text::{ascii_lower, push_str, remove_char, to_ascii_lowercase};

verus! {

/// A GUID as its sixteen bytes, in the order in which they are written.
#[derive(Clone, Copy, Debug)]
pub struct Guid {
    pub bytes: [u8; 16],
}

impl View for Guid {
    type V = Seq<u8>;

    open spec fn view(&self) -> Seq<u8> {
        self.bytes@
    }
}

/// The lower-case hexadecimal digit of a value below sixteen.
pub open spec fn hex_char(n: int) -> char {
    if n < 10 {
        (('0' as int) + n) as char
    } else {
        (('a' as int) + (n - 10)) as char
    }
}

/// Nibble `i` of the byte sequence `b`, high nibble of each byte first.
pub open spec fn nibble(b: Seq<u8>, i: int) -> int {
    if i % 2 == 0 {
        (b[i / 2] / 16) as int
    } else {
        (b[i / 2] % 16) as int
    }
}

/// The 32 lower-case hexadecimal digits of a GUID, without separators.
pub open spec fn simple_hex(b: Seq<u8>) -> Seq<char> {
    Seq::new(32, |i: int| hex_char(nibble(b, i)))
}

/// The 36-character hyphenated form `8-4-4-4-12` of a GUID in lower case.
pub open spec fn hyphenated_hex(b: Seq<u8>) -> Seq<char> {
    let h = simple_hex(b);
    h.subrange(0, 8) + seq!['-'] + h.subrange(8, 12) + seq!['-'] + h.subrange(12, 16) + seq!['-']
        + h.subrange(16, 20) + seq!['-'] + h.subrange(20, 32)
}

/// The value of an ASCII hexadecimal digit of either case.
pub open spec fn hex_value(c: u8) -> Option<u8> {
    if 48 <= c <= 57 {
        Some((c - 48) as u8)
    } else if 97 <= c <= 102 {
        Some((c - 87) as u8)
    } else if 65 <= c <= 70 {
        Some((c - 55) as u8)
    } else {
        None
    }
}

/// The sixteen bytes spelled by 32 hexadecimal digits, if every one of them is a digit.
pub open spec fn decode_hex32(h: Seq<u8>) -> Option<Seq<u8>> {
    if h.len() == 32 && forall|i: int| 0 <= i < 32 ==> (#[trigger] hex_value(h[i])) is Some {
        Some(Seq::new(16, |j: int| (hex_value(h[2 * j])->0 * 16 + hex_value(h[2 * j + 1])->0) as u8))
    } else {
        None
    }
}

/// The sixteen bytes of a hyphenated `8-4-4-4-12` GUID text, if it is one.
pub open spec fn decode_hyphenated(s: Seq<u8>) -> Option<Seq<u8>> {
    if s.len() == 36 && s[8] == 45 && s[13] == 45 && s[18] == 45 && s[23] == 45 {
        decode_hex32(
            s.subrange(0, 8) + s.subrange(9, 13) + s.subrange(14, 18) + s.subrange(19, 23)
                + s.subrange(24, 36),
        )
    } else {
        None
    }
}

/// ASCII lower case of a byte.
pub open spec fn lower_byte(b: u8) -> u8 {
    if 65 <= b <= 90 {
        (b + 32) as u8
    } else {
        b
    }
}

/// The GUID that the `uuid` crate reads from the bytes of a text: 32 hexadecimal
/// digits, the hyphenated form, the hyphenated form in braces, or the hyphenated
/// form behind a `urn:uuid:` prefix of any case.
pub open spec fn uuid_text_bytes(s: Seq<u8>) -> Option<Seq<u8>> {
    if s.len() == 32 {
        decode_hex32(s)
    } else if s.len() == 36 {
        decode_hyphenated(s)
    } else if s.len() == 38 && s[0] == 123 && s[37] == 125 {
        decode_hyphenated(s.subrange(1, 37))
    } else if s.len() == 45 && s.subrange(0, 9).map_values(|b: u8| lower_byte(b))
        =~= seq![117u8, 114, 110, 58, 117, 117, 105, 100, 58] {
        decode_hyphenated(s.subrange(9, 45))
    } else {
        None
    }
}

/// The message of the error that the `uuid` crate reports for a text it cannot read.
pub uninterp spec fn uuid_parse_error_message(input: Seq<char>) -> Seq<char>;

/// The hyphenated lower-case text of a GUID: `uuid::Uuid`'s `Display`, which the
/// crate writes as `LowerHex`, the `8-4-4-4-12` grouping of the sixteen bytes in order.
#[verifier::external_body]
fn uuid_to_string(g: &Guid) -> (s: String)
    ensures
        s@ == hyphenated_hex(g@),
{
    uuid::Uuid::from_bytes(g.bytes).to_string()
}

/// Reads a GUID with `uuid::Uuid::parse_str`. The crate works on the UTF-8 bytes of
/// the text: it accepts 32 hexadecimal digits, the hyphenated form, the braced form
/// and the `urn:uuid:` form, and gives the bytes the digits spell; otherwise the
/// error's `Display` text, which is named here and not spelled out.
#[verifier::external_body]
fn uuid_parse_str(s: &str) -> (r: Result<Guid, String>)
    ensures
        match uuid_text_bytes(s.spec_bytes()) {
            Some(b) => r matches Ok(g) && g@ == b,
            None => r matches Err(m) && m@ == uuid_parse_error_message(s@),
        },
{
    match uuid::Uuid::parse_str(s) {
        Ok(u) => Ok(Guid { bytes: *u.as_bytes() }),
        Err(e) => Err(e.to_string()),
    }
}

/// Whether two GUIDs are the same.
pub fn guid_eq(a: &Guid, b: &Guid) -> (r: bool)
    ensures
        r == (a@ == b@),
{
    let mut i: usize = 0;
    while i < 16
        invariant
            0 <= i <= 16,
            a@.len() == 16,
            b@.len() == 16,
            forall|k: int| 0 <= k < i ==> a@[k] == b@[k],
        decreases 16 - i,
    {
        if a.bytes[i] != b.bytes[i] {
            return false;
        }
        i = i + 1;
    }
    proof {
        assert(a@ =~= b@);
    }
    true
}

/// The nil GUID, all sixteen bytes zero.
pub fn _null_guid() -> (g: Guid)
    ensures
        g@ == Seq::new(16, |i: int| 0u8),
{
    let g = Guid { bytes: [0u8; 16] };
    proof { assert(g@ =~= Seq::new(16, |i: int| 0u8)); }
    g
}

proof fn lemma_hex_chars(b: Seq<u8>)
    requires
        b.len() == 16,
    ensures
        forall|i: int| 0 <= i < 32 ==> {
            let c = #[trigger] simple_hex(b)[i];
            &&& c != '-'
            &&& ascii_lower(c) == c
            &&& ('0' <= c <= '9' || 'a' <= c <= 'f')
        },
{
    assert forall|i: int| 0 <= i < 32 implies {
        let c = #[trigger] simple_hex(b)[i];
        &&& c != '-'
        &&& ascii_lower(c) == c
        &&& ('0' <= c <= '9' || 'a' <= c <= 'f')
    } by {
        let n = nibble(b, i);
        assert(0 <= n < 16);
    }
}

/// The SQLite text of a GUID: its 32 hexadecimal digits in lower case, without
/// hyphens (for example `f737a4904dac6736c7d8fe7b765ee354`).
pub fn convert_guid_to_sqlite_string(incoming_guid: &Guid) -> (r: String)
    ensures
        r@ == simple_hex(incoming_guid@),
{
    let text = uuid_to_string(incoming_guid);
    let lower = to_ascii_lowercase(text.as_str());
    proof {
        lemma_hex_chars(incoming_guid@);
        assert(lower@ =~= text@);
    }
    if lower.as_str().unicode_len() == 36 {
        let r = remove_char(lower.as_str(), '-');
        proof {
            let h = simple_hex(incoming_guid@);
            let p = |x: char| x != '-';
            let a = h.subrange(0, 8);
            let b = h.subrange(8, 12);
            let c = h.subrange(12, 16);
            let d = h.subrange(16, 20);
            let e = h.subrange(20, 32);
            let dash = seq!['-'];
            assert(a.filter(p) =~= a) by { lemma_filter_keep_all(a, p); }
            assert(b.filter(p) =~= b) by { lemma_filter_keep_all(b, p); }
            assert(c.filter(p) =~= c) by { lemma_filter_keep_all(c, p); }
            assert(d.filter(p) =~= d) by { lemma_filter_keep_all(d, p); }
            assert(e.filter(p) =~= e) by { lemma_filter_keep_all(e, p); }
            assert(dash.filter(p) =~= Seq::<char>::empty()) by {
                reveal_with_fuel(Seq::filter, 2);
            }
            broadcast use Seq::filter_distributes_over_add;
            assert(text@.filter(p) =~= a + b + c + d + e);
            assert(a + b + c + d + e =~= h);
        }
        r
    } else {
        lower
    }
}

/// A sequence keeps every element under a filter that every element passes.
proof fn lemma_filter_keep_all(s: Seq<char>, p: spec_fn(char) -> bool)
    requires
        forall|i: int| 0 <= i < s.len() ==> p(#[trigger] s[i]),
    ensures
        s.filter(p) == s,
    decreases s.len(),
{
    reveal(Seq::filter);
    if s.len() > 0 {
        lemma_filter_keep_all(s.drop_last(), p);
        assert(s.drop_last().push(s.last()) =~= s);
    } else {
        assert(s =~= Seq::<char>::empty());
    }
}


/// The bytes of a 32-byte GUID text with hyphens put after bytes 8, 12, 16 and 20.
pub open spec fn dashed_bytes(b: Seq<u8>) -> Seq<u8> {
    b.subrange(0, 8) + seq![45u8] + b.subrange(8, 12) + seq![45u8] + b.subrange(12, 16) + seq![
        45u8,
    ] + b.subrange(16, 20) + seq![45u8] + b.subrange(20, 32)
}

/// The text that `convert_string_to_guid` hands to the GUID reader: a text of 32
/// characters whose byte offsets 8, 12, 16, 20 and 32 fall between characters gets
/// hyphens at the offsets 8, 12, 16 and 20; any other text goes as it is (a text of
/// 32 characters that cannot be cut so holds a character beyond ASCII, and reads
/// as no GUID).
pub open spec fn guid_text(s: Seq<char>) -> Seq<char> {
    if s.len() == 32 && cuts_at_char_boundaries(s) {
        decode_utf8(dashed_bytes(encode_utf8(s)))
    } else {
        s
    }
}

/// The byte offsets at which `convert_string_to_guid` cuts a 32-character text
/// all fall between characters.
pub open spec fn cuts_at_char_boundaries(s: Seq<char>) -> bool {
    let b = encode_utf8(s);
    &&& is_char_boundary(b, 8)
    &&& is_char_boundary(b, 12)
    &&& is_char_boundary(b, 16)
    &&& is_char_boundary(b, 20)
    &&& is_char_boundary(b, 32)
}

/// What `convert_string_to_guid` gives for a text: the GUID the reader finds in
/// `guid_text(s)`, or the reader's message.
pub open spec fn guid_from_text(s: Seq<char>) -> Result<Seq<u8>, Seq<char>> {
    match uuid_text_bytes(encode_utf8(guid_text(s))) {
        Some(b) => Ok(b),
        None => Err(uuid_parse_error_message(guid_text(s))),
    }
}

proof fn lemma_encode_utf8_add(a: Seq<char>, b: Seq<char>)
    ensures
        encode_utf8(a + b) == encode_utf8(a) + encode_utf8(b),
    decreases a.len(),
{
    if a.len() == 0 {
        assert(a + b =~= b);
        assert(encode_utf8(a) =~= Seq::<u8>::empty());
        assert(encode_utf8(a) + encode_utf8(b) =~= encode_utf8(b));
    } else {
        lemma_encode_utf8_add(a.drop_first(), b);
        assert((a + b).drop_first() =~= a.drop_first() + b);
        assert((a + b)[0] == a[0]);
        assert(encode_utf8(a + b) =~= encode_scalar(a[0] as u32) + encode_utf8(a.drop_first() + b));
    }
}

proof fn lemma_boundary_within(bytes: Seq<u8>, lo: int, k: int, hi: int)
    requires
        valid_utf8(bytes),
        0 <= lo <= k <= hi <= bytes.len(),
        is_char_boundary(bytes, lo),
        is_char_boundary(bytes, k),
        is_char_boundary(bytes, hi),
    ensures
        valid_utf8(bytes.subrange(lo, hi)),
        is_char_boundary(bytes.subrange(lo, hi), k - lo),
{
    broadcast use valid_utf8_split, is_char_boundary_start_end_of_seq;

    let upto = bytes.subrange(0, hi);
    assert(valid_utf8(upto));
    assert(bytes.len() == hi || is_char_boundary(bytes, hi));
    if lo < hi {
        is_char_boundary_iff_not_is_continuation_byte(bytes, lo);
    }
    assert(is_char_boundary(upto, lo)) by {
        if lo == 0 {
        } else if lo == hi {
            is_char_boundary_start_end_of_seq(upto);
        } else {
            is_char_boundary_iff_not_is_continuation_byte(upto, lo);
            is_char_boundary_iff_not_is_continuation_byte(bytes, lo);
        }
    }
    let sub = upto.subrange(lo, hi);
    assert(sub =~= bytes.subrange(lo, hi));
    valid_utf8_split(upto, lo);
    assert(valid_utf8(sub));
    if k == lo {
        reveal_with_fuel(is_char_boundary, 1);
    } else if k == hi {
        is_char_boundary_start_end_of_seq(sub);
        assert(sub.len() == k - lo);
    } else {
        is_char_boundary_iff_not_is_continuation_byte(sub, k - lo);
        is_char_boundary_iff_not_is_continuation_byte(bytes, k);
        assert(sub[k - lo] == bytes[k]);
    }
}

/// Splits `s` at byte offset `mid`, which falls between characters.
fn split_text(s: &str, mid: usize) -> (r: (&str, &str))
    requires
        is_char_boundary(s.spec_bytes(), mid as int),
    ensures
        r.0.spec_bytes() == s.spec_bytes().subrange(0, mid as int),
        r.1.spec_bytes() == s.spec_bytes().subrange(mid as int, s.spec_bytes().len() as int),
        r.0@ == decode_utf8(s.spec_bytes().subrange(0, mid as int)),
        r.1@ == decode_utf8(s.spec_bytes().subrange(mid as int, s.spec_bytes().len() as int)),
{
    let r = s.split_at(mid);
    proof {
        broadcast use encode_utf8_decode_utf8;
        assert(decode_utf8(encode_utf8(r.0@)) == r.0@);
        assert(decode_utf8(encode_utf8(r.1@)) == r.1@);
    }
    r
}

/// The SQLite parameter for a GUID: none (NULL) for the null GUID, otherwise its
/// 32 hexadecimal digits.
pub fn convert_guid_to_sqlite_parameter(incoming_guid: &Guid) -> (r: Option<String>)
    ensures
        incoming_guid@ == Seq::new(16, |i: int| 0u8) ==> r is None,
        incoming_guid@ != Seq::new(16, |i: int| 0u8) ==> (r matches Some(t) && t@ == simple_hex(incoming_guid@)),
{
    let null = _null_guid();
    if guid_eq(incoming_guid, &null) {
        None
    } else {
        Some(convert_guid_to_sqlite_string(incoming_guid))
    }
}

/// Reads a GUID from its text, if possible. A text of exactly 32 characters is
/// first given hyphens after its bytes 8, 12, 16 and 20 (where those fall between
/// characters), so that the bare hexadecimal form stored by SQLite reads like the
/// hyphenated one. Any text that is no GUID gives the reader's message.
pub fn convert_string_to_guid(incoming_string: String) -> (r: Result<Guid, String>)
    ensures
        match guid_from_text(incoming_string@) {
            Ok(b) => r matches Ok(g) && g@ == b,
            Err(m) => r matches Err(e) && e@ == m,
        },
{
    let s = incoming_string.as_str();
    if s.unicode_len() == 32 && s.is_char_boundary(8) && s.is_char_boundary(12) && s.is_char_boundary(16)
        && s.is_char_boundary(20) && s.is_char_boundary(32) {
        let ghost b = s.spec_bytes();
        proof {
            broadcast use encode_utf8_valid_utf8;
            assert(valid_utf8(b));
            assert(b.len() >= 32) by {
                is_char_boundary_within_len(b, 32);
            }
            lemma_boundary_within(b, 0, 32, 32);
            lemma_boundary_within(b, 0, 8, 32);
            lemma_boundary_within(b, 8, 12, 32);
            lemma_boundary_within(b, 12, 16, 32);
            lemma_boundary_within(b, 16, 20, 32);
            assert(b.subrange(0, 32).subrange(0, 8) =~= b.subrange(0, 8));
            assert(b.subrange(0, 32).subrange(8, 32) =~= b.subrange(8, 32));
            assert(b.subrange(8, 32).subrange(0, 4) =~= b.subrange(8, 12));
            assert(b.subrange(8, 32).subrange(4, 24) =~= b.subrange(12, 32));
            assert(b.subrange(12, 32).subrange(0, 4) =~= b.subrange(12, 16));
            assert(b.subrange(12, 32).subrange(4, 20) =~= b.subrange(16, 32));
            assert(b.subrange(16, 32).subrange(0, 4) =~= b.subrange(16, 20));
            assert(b.subrange(16, 32).subrange(4, 16) =~= b.subrange(20, 32));
        }
        let (first32, _rest) = split_text(s, 32);
        let (part1, rest1) = split_text(first32, 8);
        let (part2, rest2) = split_text(rest1, 4);
        let (part3, rest3) = split_text(rest2, 4);
        let (part4, part5) = split_text(rest3, 4);
        let mut joined = String::new();
        push_str(&mut joined, part1);
        push_str(&mut joined, "-");
        push_str(&mut joined, part2);
        push_str(&mut joined, "-");
        push_str(&mut joined, part3);
        push_str(&mut joined, "-");
        push_str(&mut joined, part4);
        push_str(&mut joined, "-");
        push_str(&mut joined, part5);
        proof {
            reveal_strlit("-");
            broadcast use encode_utf8_decode_utf8;
            let dash = seq!['-'];
            assert("-"@ =~= dash);
            assert(encode_utf8(dash) =~= seq![45u8]) by {
                assert(is_ascii_chars(dash));
                is_ascii_chars_encode_utf8(dash);
            }
            lemma_encode_utf8_add(part1@, dash);
            lemma_encode_utf8_add(part1@ + dash, part2@);
            lemma_encode_utf8_add(part1@ + dash + part2@, dash);
            lemma_encode_utf8_add(part1@ + dash + part2@ + dash, part3@);
            lemma_encode_utf8_add(part1@ + dash + part2@ + dash + part3@, dash);
            lemma_encode_utf8_add(part1@ + dash + part2@ + dash + part3@ + dash, part4@);
            lemma_encode_utf8_add(part1@ + dash + part2@ + dash + part3@ + dash + part4@, dash);
            lemma_encode_utf8_add(part1@ + dash + part2@ + dash + part3@ + dash + part4@ + dash, part5@);
            assert(encode_utf8(joined@) =~= dashed_bytes(b));
            assert(joined@ == decode_utf8(encode_utf8(joined@)));
            assert(joined@ == guid_text(incoming_string@));
        }
        uuid_parse_str(joined.as_str())
    } else {
        uuid_parse_str(s)
    }
}

proof fn is_char_boundary_within_len(b: Seq<u8>, k: int)
    requires
        valid_utf8(b),
        is_char_boundary(b, k),
    ensures
        k <= b.len(),
    decreases b.len(),
{
    reveal_with_fuel(is_char_boundary, 1);
    if k != 0 && !(k < 0 || b.len() < k) {
    }
}


/// The bytes of an ASCII character sequence.
pub open spec fn ascii_bytes(s: Seq<char>) -> Seq<u8> {
    s.map_values(|c: char| c as u8)
}

proof fn lemma_ascii_encode(s: Seq<char>)
    requires
        is_ascii_chars(s),
    ensures
        encode_utf8(s) == ascii_bytes(s),
{
    is_ascii_chars_encode_utf8(s);
    assert(encode_utf8(s) =~= ascii_bytes(s));
}

proof fn lemma_hex_digit_value(n: int)
    requires
        0 <= n < 16,
    ensures
        hex_value(hex_char(n) as u8) == Some(n as u8),
        '\0' <= hex_char(n) <= '\u{7f}',
        hex_char(n) as u8 != 45u8,
{
}

/// A GUID's SQLite text reads back as the same GUID: `convert_string_to_guid`
/// accepts every text that `convert_guid_to_sqlite_string` writes and gives back
/// the GUID that was written.
pub proof fn lemma_sqlite_text_reads_back(g: Seq<u8>)
    requires
        g.len() == 16,
    ensures
        cuts_at_char_boundaries(simple_hex(g)),
        guid_from_text(simple_hex(g)) == Ok::<Seq<u8>, Seq<char>>(g),
        uuid_text_bytes(encode_utf8(hyphenated_hex(g))) == Some(g),
{
    let h = simple_hex(g);
    assert forall|i: int| 0 <= i < 32 implies {
        &&& '\0' <= #[trigger] h[i] <= '\u{7f}'
        &&& hex_value(h[i] as u8) == Some(nibble(g, i) as u8)
        &&& h[i] as u8 != 45u8
    } by {
        lemma_hex_digit_value(nibble(g, i));
    }
    assert(is_ascii_chars(h));
    lemma_ascii_encode(h);
    let b = encode_utf8(h);
    assert(b.len() == 32);
    broadcast use encode_utf8_valid_utf8;
    assert(valid_utf8(b));
    assert forall|k: int| 0 < k < 32 implies is_char_boundary(b, k) by {
        is_char_boundary_iff_not_is_continuation_byte(b, k);
        assert(b[k] < 128);
    }
    is_char_boundary_start_end_of_seq(b);
    let t = hyphenated_hex(g);
    assert(is_ascii_chars(t));
    lemma_ascii_encode(t);
    assert(dashed_bytes(b) =~= encode_utf8(t));
    broadcast use encode_utf8_decode_utf8;
    assert(guid_text(h) == t);
    let d = encode_utf8(t);
    assert(d.len() == 36);
    let groups = d.subrange(0, 8) + d.subrange(9, 13) + d.subrange(14, 18) + d.subrange(19, 23)
        + d.subrange(24, 36);
    assert(groups =~= b);
    assert forall|i: int| 0 <= i < 32 implies (#[trigger] hex_value(groups[i])) is Some by {
        assert(groups[i] == h[i] as u8);
    }
    let decoded = Seq::new(
        16,
        |j: int| (hex_value(groups[2 * j])->0 * 16 + hex_value(groups[2 * j + 1])->0) as u8,
    );
    assert forall|j: int| 0 <= j < 16 implies #[trigger] decoded[j] == g[j] by {
        assert(groups[2 * j] == h[2 * j] as u8);
        assert(groups[2 * j + 1] == h[2 * j + 1] as u8);
        assert(nibble(g, 2 * j) == g[j] / 16);
        assert(nibble(g, 2 * j + 1) == g[j] % 16);
    }
    assert(decoded =~= g);
    assert(uuid_text_bytes(d) == Some(g));
}

/// Reads the GUID of a column that may be NULL: the null GUID for NULL, otherwise
/// the GUID the text spells (the desktop reader stops on a text that is none, so
/// the text must be one).
pub fn convert_string_result_to_guid(incoming_result: Option<String>) -> (r: Guid)
    requires
        incoming_result matches Some(s) ==> guid_from_text(s@) is Ok,
    ensures
        incoming_result is None ==> r@ == Seq::new(16, |i: int| 0u8),
        incoming_result matches Some(s) ==> guid_from_text(s@) == Ok::<Seq<u8>, Seq<char>>(r@),
{
    match incoming_result {
        None => _null_guid(),
        Some(s) => {
            match convert_string_to_guid(s) {
                Ok(g) => g,
                Err(_) => _null_guid(),
            }
        },
    }
}

/// Whether a character is a lower-case hexadecimal digit.
pub open spec fn is_lower_hex_digit(c: char) -> bool {
    ('0' <= c <= '9') || ('a' <= c <= 'f')
}

/// The value of a lower-case hexadecimal digit.
pub open spec fn lower_hex_value(c: char) -> int {
    if '0' <= c <= '9' {
        c as int - '0' as int
    } else {
        c as int - 'a' as int + 10
    }
}

/// The GUID that 32 lower-case hexadecimal digits spell.
pub open spec fn guid_of_hex(s: Seq<char>) -> Seq<u8> {
    Seq::new(16, |j: int| (lower_hex_value(s[2 * j]) * 16 + lower_hex_value(s[2 * j + 1])) as u8)
}

/// A GUID's SQLite text is written back unchanged: 32 lower-case hexadecimal
/// digits read (by `convert_string_to_guid`) as the GUID they spell, whose text
/// (by `convert_guid_to_sqlite_string`) is the same 32 digits.
pub proof fn lemma_sqlite_text_writes_back(s: Seq<char>)
    requires
        s.len() == 32,
        forall|i: int| 0 <= i < 32 ==> is_lower_hex_digit(#[trigger] s[i]),
    ensures
        cuts_at_char_boundaries(s),
        guid_from_text(s) == Ok::<Seq<u8>, Seq<char>>(guid_of_hex(s)),
        simple_hex(guid_of_hex(s)) == s,
{
    let g = guid_of_hex(s);
    assert forall|i: int| 0 <= i < 32 implies #[trigger] simple_hex(g)[i] == s[i] by {
        let j = i / 2;
        let hi = lower_hex_value(s[2 * j]);
        let lo = lower_hex_value(s[2 * j + 1]);
        assert(is_lower_hex_digit(s[2 * j]));
        assert(is_lower_hex_digit(s[2 * j + 1]));
        assert(0 <= hi < 16 && 0 <= lo < 16);
        assert(g[j] == hi * 16 + lo);
        assert((hi * 16 + lo) / 16 == hi && (hi * 16 + lo) % 16 == lo) by (nonlinear_arith)
            requires
                0 <= hi < 16,
                0 <= lo < 16,
        ;
        if i % 2 == 0 {
            assert(i == 2 * j);
            assert(nibble(g, i) == hi);
        } else {
            assert(i == 2 * j + 1);
            assert(nibble(g, i) == lo);
        }
    }
    assert(simple_hex(g) =~= s);
    lemma_sqlite_text_reads_back(g);
}

/// A GUID's hyphenated text (what `uuid::Uuid` displays) reads back as the same
/// GUID through `convert_string_to_guid`.
pub proof fn lemma_hyphenated_text_reads_back(g: Seq<u8>)
    requires
        g.len() == 16,
    ensures
        guid_from_text(hyphenated_hex(g)) == Ok::<Seq<u8>, Seq<char>>(g),
{
    lemma_sqlite_text_reads_back(g);
    assert(hyphenated_hex(g).len() == 36);
}

} // verus!
