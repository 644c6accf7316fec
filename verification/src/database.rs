use vstd::prelude::*;
use crate::text::{decimal, push_str, string_of, u64_to_decimal};

verus! {

/// The upper-case form of an ASCII lower-case letter byte; other bytes stay as they are.
pub open spec fn upper_byte(b: u8) -> u8 {
    if 97 <= b <= 122 {
        (b - 32) as u8
    } else {
        b
    }
}

/// The header that every SQLite database file starts with, up to its version
/// digit: `SQLITE FORMAT` once its letters are upper-cased.
pub open spec fn sqlite_header_upper() -> Seq<u8> {
    seq![83u8, 81, 76, 73, 84, 69, 32, 70, 79, 82, 77, 65, 84]
}

/// Whether a file's first thirteen bytes, upper-cased, spell `SQLITE FORMAT`.
pub open spec fn has_sqlite_header(file: Seq<u8>) -> bool {
    file.len() >= 13 && forall|i: int|
        0 <= i < 13 ==> upper_byte(#[trigger] file[i]) == sqlite_header_upper()[i]
}

/// The message for a file too short to be a database.
pub open spec fn too_short_message(len: nat) -> Seq<char> {
    "The selected file is not a valid SQLite Database! Its length is "@ + decimal(len) + "."@
}

/// The message for a file without the SQLite header.
pub open spec fn bad_header_message() -> Seq<char> {
    "The selected file does not have a valid SQLite Database header."@
}

/// Checks that the bytes of a chosen file look like an SQLite database: at least
/// sixteen bytes, beginning with `SQLite format` in any case.
pub fn valid_database(incoming_database: &[u8]) -> (r: Result<(), String>)
    ensures
        incoming_database@.len() < 16 ==> (r matches Err(m) && m@ == too_short_message(
            incoming_database@.len(),
        )),
        incoming_database@.len() >= 16 && has_sqlite_header(incoming_database@) ==> r is Ok,
        incoming_database@.len() >= 16 && !has_sqlite_header(incoming_database@) ==> (r matches Err(
            m,
        ) && m@ == bad_header_message()),
{
    let len = incoming_database.len();
    if len < 16 {
        let mut m = string_of("The selected file is not a valid SQLite Database! Its length is ");
        let digits = u64_to_decimal(len as u64);
        push_str(&mut m, digits.as_str());
        push_str(&mut m, ".");
        return Err(m);
    }
    let expected: [u8; 13] = [83u8, 81, 76, 73, 84, 69, 32, 70, 79, 82, 77, 65, 84];
    proof {
        assert(expected@ =~= sqlite_header_upper());
    }
    let mut i: usize = 0;
    while i < 13
        invariant
            0 <= i <= 13,
            len == incoming_database@.len(),
            len >= 16,
            expected@ == sqlite_header_upper(),
            forall|k: int| 0 <= k < i ==> upper_byte(#[trigger] incoming_database@[k]) == sqlite_header_upper()[k],
        decreases 13 - i,
    {
        let b = incoming_database[i];
        let u = if 97 <= b && b <= 122 { b - 32 } else { b };
        if u != expected[i] {
            return Err(string_of("The selected file does not have a valid SQLite Database header."));
        }
        i = i + 1;
    }
    Ok(())
}

} // verus!
