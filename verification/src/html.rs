use base64::Engine;
use vstd::prelude::*;
use crate::text::{ascii_lower, push_str, replace_char, string_of, to_ascii_lowercase};

verus! {

/// The CSS class a table-header cell gets: the table's prefix and the header's
/// text, each with spaces turned into underscores and ASCII letters lower-cased,
/// joined by an underscore (for example `account_balance`).
pub open spec fn header_class_spec(css_prefix: Seq<char>, header: Seq<char>) -> Seq<char> {
    css_prefix.map_values(|c: char| ascii_lower(if c == ' ' { '_' } else { c })) + seq!['_']
        + header.map_values(|c: char| ascii_lower(if c == ' ' { '_' } else { c }))
}

/// The CSS class of a table-header cell (see `header_class_spec`).
pub fn header_css_class(css_prefix: &str, header: &str) -> (r: String)
    ensures
        r@ == header_class_spec(css_prefix@, header@),
{
    let p = replace_char(css_prefix, ' ', '_');
    let p = to_ascii_lowercase(p.as_str());
    let h = replace_char(header, ' ', '_');
    let h = to_ascii_lowercase(h.as_str());
    let mut r = p;
    push_str(&mut r, "_");
    push_str(&mut r, h.as_str());
    proof {
        reveal_strlit("_");
        assert(r@ =~= header_class_spec(css_prefix@, header@));
    }
    r
}

/// The markup of the "please wait" box: the message above a spinner, centred.
pub open spec fn loading_message_spec(message: Seq<char>) -> Seq<char> {
    "<div style='display:flex;width:100%;height:100%;justify-content:center;align-items: center;'>\n                "@
        + message + "<br>\n                <div class=\"lds-spinner\">\n                                <div></div><div></div><div></div><div></div><div></div><div></div>\n                                <div></div><div></div><div></div><div></div><div></div><div></div>\n                                </div>\n            </div>"@
}

/// The markup of the "please wait" box for a message.
pub fn loading_message_html(message: &str) -> (r: String)
    ensures
        r@ == loading_message_spec(message@),
{
    let mut r = string_of(
        "<div style='display:flex;width:100%;height:100%;justify-content:center;align-items: center;'>\n                ",
    );
    push_str(&mut r, message);
    push_str(
        &mut r,
        "<br>\n                <div class=\"lds-spinner\">\n                                <div></div><div></div><div></div><div></div><div></div><div></div>\n                                <div></div><div></div><div></div><div></div><div></div><div></div>\n                                </div>\n            </div>",
    );
    r
}

/// A link that downloads data given in base64 under a file name; the page clicks
/// it right after adding it.
pub open spec fn download_link_spec(filename: Seq<char>, link_id: Seq<char>, base64: Seq<char>) -> Seq<char> {
    "<a download='"@ + filename + "' id='"@ + link_id
        + "' \n                        href='data:application/octet-stream;base64,"@ + base64
        + "' target='_self'>Download</a>"@
}

/// The markup of a download link for base64 data (see `download_link_spec`).
pub fn download_link_html(filename: &str, link_id: &str, base64: &str) -> (r: String)
    ensures
        r@ == download_link_spec(filename@, link_id@, base64@),
{
    let mut r = string_of("<a download='");
    push_str(&mut r, filename);
    push_str(&mut r, "' id='");
    push_str(&mut r, link_id);
    push_str(&mut r, "' \n                        href='data:application/octet-stream;base64,");
    push_str(&mut r, base64);
    push_str(&mut r, "' target='_self'>Download</a>");
    r
}

/// The link that downloads a newly created, empty book.
pub open spec fn new_database_link_spec(base64: Seq<char>) -> Seq<char> {
    "<a download='MoneyManagerFile.gnucash' id='MoneyManagerFile' \n                                href='data:application/octet-stream;base64,"@
        + base64 + "' target='_self'>Download</a>"@
}

/// The markup of the link that downloads a newly created book.
pub fn new_database_link_html(base64: &str) -> (r: String)
    ensures
        r@ == new_database_link_spec(base64@),
{
    let mut r = string_of(
        "<a download='MoneyManagerFile.gnucash' id='MoneyManagerFile' \n                                href='data:application/octet-stream;base64,",
    );
    push_str(&mut r, base64);
    push_str(&mut r, "' target='_self'>Download</a>");
    r
}


/// The character of a six-bit value in the standard base64 alphabet.
pub open spec fn base64_char(v: int) -> char {
    if v < 26 {
        (('A' as int) + v) as char
    } else if v < 52 {
        (('a' as int) + (v - 26)) as char
    } else if v < 62 {
        (('0' as int) + (v - 52)) as char
    } else if v == 62 {
        '+'
    } else {
        '/'
    }
}

/// Standard base64 without padding: each group of three bytes becomes four
/// characters of six bits each, high bits first; a final group of one or two
/// bytes becomes two or three characters, its missing low bits zero.
pub open spec fn base64_no_pad(b: Seq<u8>) -> Seq<char>
    decreases b.len(),
{
    if b.len() == 0 {
        Seq::empty()
    } else if b.len() == 1 {
        seq![base64_char(b[0] as int / 4), base64_char((b[0] as int % 4) * 16)]
    } else if b.len() == 2 {
        seq![
            base64_char(b[0] as int / 4),
            base64_char((b[0] as int % 4) * 16 + b[1] as int / 16),
            base64_char((b[1] as int % 16) * 4),
        ]
    } else {
        seq![
            base64_char(b[0] as int / 4),
            base64_char((b[0] as int % 4) * 16 + b[1] as int / 16),
            base64_char((b[1] as int % 16) * 4 + b[2] as int / 64),
            base64_char(b[2] as int % 64),
        ] + base64_no_pad(b.subrange(3, b.len() as int))
    }
}

/// Encodes bytes with `base64::engine::general_purpose::STANDARD_NO_PAD`: the standard
/// alphabet without `=` padding. The crate panics when the encoded length would not fit
/// in a `usize`, which the bound on the input rules out.
#[verifier::external_body]
fn base64_encode(bytes: &[u8]) -> (r: String)
    requires
        bytes@.len() <= usize::MAX / 2,
    ensures
        r@ == base64_no_pad(bytes@),
{

    base64::engine::general_purpose::STANDARD_NO_PAD.encode(bytes)
}

/// The download link with which the page saves the open book under its file name.
pub fn save_database_link_html(filename: &str, database: &[u8]) -> (r: String)
    requires
        database@.len() <= usize::MAX / 2,
    ensures
        r@ == download_link_spec(filename@, "MoneyManagerFile"@, base64_no_pad(database@)),
{
    let b64 = base64_encode(database);
    download_link_html(filename, "MoneyManagerFile", b64.as_str())
}

/// The download link with which the page hands out a CSV export under a file name.
pub fn csv_export_link_html(filename: &str, csv_data: &[u8]) -> (r: String)
    requires
        csv_data@.len() <= usize::MAX / 2,
    ensures
        r@ == download_link_spec(filename@, "csv_data_export_button"@, base64_no_pad(csv_data@)),
{
    let b64 = base64_encode(csv_data);
    download_link_html(filename, "csv_data_export_button", b64.as_str())
}

/// The download link of a newly created book's bytes.
pub fn new_database_download_html(database: &[u8]) -> (r: String)
    requires
        database@.len() <= usize::MAX / 2,
    ensures
        r@ == new_database_link_spec(base64_no_pad(database@)),
{
    let b64 = base64_encode(database);
    new_database_link_html(b64.as_str())
}

} // verus!
