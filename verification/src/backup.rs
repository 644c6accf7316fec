use vstd::prelude::*;
use crate::dates::{all_digits, digits_value};
use crate::text::{decimal, push_str, string_of, u64_to_decimal};

verus! {

/// The pattern of a numbered backup copy's name: any text without a line feed, then
/// `(`, decimal digits (the backup's number), `)` and `.bak` in any letter case.
/// Which file a copy belongs to is the text before the `(`.
pub const BACKUP_FILE_PATTERN: &'static str = "^.*[(](\\d+)[)][.][Bb][Aa][Kk]$";

/// Group 1 of the leftmost match of a regular expression in a text, as the
/// `regex` crate finds it (`None` where the text does not match).
pub uninterp spec fn regex_first_group(pattern: Seq<char>, text: Seq<char>) -> Option<Seq<char>>;

/// Whether a text is `bak` in some letter case.
pub open spec fn is_bak(b: Seq<char>) -> bool {
    &&& b.len() == 3
    &&& (b[0] == 'b' || b[0] == 'B')
    &&& (b[1] == 'a' || b[1] == 'A')
    &&& (b[2] == 'k' || b[2] == 'K')
}

/// Whether a text holds no line feed (what `.` of a regular expression matches).
pub open spec fn no_line_feed(p: Seq<char>) -> bool {
    forall|i: int| 0 <= i < p.len() ==> p[i] != '\n'
}

/// The name `p(d).b`.
pub open spec fn numbered_name(p: Seq<char>, d: Seq<char>, b: Seq<char>) -> Seq<char> {
    p + seq!['('] + d + seq![')', '.'] + b
}

/// Group 1 of the backup pattern in a file name, by `regex::Regex::new` and
/// `Regex::captures`. The crate documents `.` as any character but a line feed,
/// `\d` as a Unicode decimal digit, and `^`/`$` as the ends of the text; so a name
/// `p(d).bak` (any case of `bak`) with no line feed in `p` and ASCII digits `d`
/// gives `d`, and a match always has that shape with a non-empty group. Which non-ASCII digits `\d` takes
/// is left unsaid.
#[verifier::external_body]
fn backup_pattern_group(pattern: &str, text: &str) -> (r: Option<String>)
    requires
        pattern@ == BACKUP_FILE_PATTERN@,
    ensures
        r is None <==> regex_first_group(pattern@, text@) is None,
        r matches Some(g) ==> regex_first_group(pattern@, text@) == Some(g@),
        r matches Some(g) ==> g@.len() > 0 && exists|p: Seq<char>, b: Seq<char>|
            #![trigger numbered_name(p, g@, b)]
            text@ == numbered_name(p, g@, b) && no_line_feed(p) && is_bak(b),
        r is None ==> forall|p: Seq<char>, d: Seq<char>, b: Seq<char>|
            #![trigger numbered_name(p, d, b)]
            !(text@ == numbered_name(p, d, b) && no_line_feed(p) && d.len() > 0 && all_digits(d) && is_bak(b)),
        r matches Some(g) ==> forall|p: Seq<char>, d: Seq<char>, b: Seq<char>|
            #![trigger numbered_name(p, d, b)]
            text@ == numbered_name(p, d, b) && no_line_feed(p) && d.len() > 0 && all_digits(d) && is_bak(b)
                ==> g@ == d,
{
    regex::Regex::new(pattern).unwrap().captures(text).map(|c| c[1].to_string())
}

/// Whether a name that matches the backup pattern with group `d` is a copy of the
/// file named `base`: it is `base`, then `(`, `d`, `)` and `.bak`.
pub open spec fn is_copy_of(base: Seq<char>, name: Seq<char>, d: Seq<char>) -> bool {
    name.len() == base.len() + d.len() + 6 && name.subrange(0, base.len() as int) == base
}

/// The backup copies of the file named `base` among the names of a directory, in
/// the order listed, each with the digits of its number.
pub open spec fn backup_files(base: Seq<char>, listing: Seq<Seq<char>>) -> Seq<(Seq<char>, Seq<char>)>
    decreases listing.len(),
{
    if listing.len() == 0 {
        Seq::empty()
    } else {
        let rest = backup_files(base, listing.drop_last());
        match regex_first_group(BACKUP_FILE_PATTERN@, listing.last()) {
            Some(d) => if is_copy_of(base, listing.last(), d) {
                rest.push((listing.last(), d))
            } else {
                rest
            },
            None => rest,
        }
    }
}

/// Whether `name` starts with `base`.
fn starts_with_text(name: &str, base: &str) -> (r: bool)
    ensures
        r == (base@.len() <= name@.len() && name@.subrange(0, base@.len() as int) == base@),
{
    let n = crate::text::chars_of(name);
    let b = crate::text::chars_of(base);
    if b.len() > n.len() {
        return false;
    }
    let mut i: usize = 0;
    while i < b.len()
        invariant
            0 <= i <= b@.len(),
            b@.len() <= n@.len(),
            n@ == name@,
            b@ == base@,
            n@.subrange(0, i as int) == b@.subrange(0, i as int),
        decreases b@.len() - i,
    {
        if n[i] != b[i] {
            proof {
                assert(name@.subrange(0, base@.len() as int)[i as int] != base@[i as int]);
            }
            return false;
        }
        proof {
            assert(n@.subrange(0, i as int + 1) =~= n@.subrange(0, i as int).push(n@[i as int]));
            assert(b@.subrange(0, i as int + 1) =~= b@.subrange(0, i as int).push(b@[i as int]));
        }
        i = i + 1;
    }
    proof {
        assert(b@.subrange(0, b@.len() as int) =~= b@);
    }
    true
}

/// The views of a list of name pairs.
pub open spec fn pair_views(v: Seq<(String, String)>) -> Seq<(Seq<char>, Seq<char>)> {
    v.map_values(|p: (String, String)| (p.0@, p.1@))
}

/// The views of a list of names.
pub open spec fn name_views(v: Seq<String>) -> Seq<Seq<char>> {
    v.map_values(|s: String| s@)
}

/// Whether `name` is `base(d).bak` (any case of `bak`) with no line feed in `base`
/// and ASCII digits `d`: a name the backup pattern surely takes as a copy of `base`.
pub open spec fn plain_copy_name(base: Seq<char>, name: Seq<char>, d: Seq<char>, b: Seq<char>) -> bool {
    &&& name == numbered_name(base, d, b)
    &&& no_line_feed(base)
    &&& d.len() > 0
    &&& all_digits(d)
    &&& is_bak(b)
}

/// Whether a found entry is `base(d).bak` for its digits `d` (any case of `bak`),
/// with some digits.
pub open spec fn copy_entry(base: Seq<char>, name: Seq<char>, d: Seq<char>) -> bool {
    exists|b: Seq<char>| #![trigger numbered_name(base, d, b)] name == numbered_name(base, d, b) && is_bak(b) && d.len() > 0
}

proof fn lemma_numbered_name_prefix(p: Seq<char>, d: Seq<char>, b: Seq<char>)
    ensures
        numbered_name(p, d, b).len() == p.len() + d.len() + 3 + b.len(),
        numbered_name(p, d, b).subrange(0, p.len() as int) == p,
{
    assert(numbered_name(p, d, b).subrange(0, p.len() as int) =~= p);
}

/// Picks out the backup copies of the file named `base_file_name` among the names
/// of a directory, with their numbers' digits. Every entry is `base(d).bak` for its
/// digits `d`, and every listed name `base(d).bak` with ASCII digits is among them.
pub fn find_backup_files(base_file_name: &str, listing: &Vec<String>) -> (r: Vec<(String, String)>)
    ensures
        pair_views(r@) == backup_files(base_file_name@, name_views(listing@)),
        forall|j: int, d: Seq<char>, b: Seq<char>|
            #![trigger plain_copy_name(base_file_name@, listing@[j]@, d, b)]
            0 <= j < listing@.len() && plain_copy_name(base_file_name@, listing@[j]@, d, b)
                ==> pair_views(r@).contains((listing@[j]@, d)),
        forall|k: int| 0 <= k < r@.len() ==> copy_entry(base_file_name@, (#[trigger] pair_views(r@)[k]).0, pair_views(r@)[k].1),
{
    let ghost all = name_views(listing@);
    let ghost base = base_file_name@;
    let mut r: Vec<(String, String)> = Vec::new();
    let mut i: usize = 0;
    while i < listing.len()
        invariant
            0 <= i <= listing@.len(),
            all == name_views(listing@),
            base == base_file_name@,
            pair_views(r@) == backup_files(base_file_name@, all.take(i as int)),
            forall|j: int, d: Seq<char>, b: Seq<char>|
                #![trigger plain_copy_name(base, listing@[j]@, d, b)]
                0 <= j < i && plain_copy_name(base, listing@[j]@, d, b) ==> pair_views(r@).contains((listing@[j]@, d)),
            forall|k: int| 0 <= k < r@.len() ==> copy_entry(base, (#[trigger] pair_views(r@)[k]).0, pair_views(r@)[k].1),
        decreases listing@.len() - i,
    {
        proof {
            assert(all.take(i as int + 1).drop_last() =~= all.take(i as int));
            assert(all.take(i as int + 1).last() == listing@[i as int]@);
        }
        let ghost name = listing@[i as int]@;
        let g = backup_pattern_group(BACKUP_FILE_PATTERN, listing[i].as_str());
        let ghost before = r@;
        match g {
            Some(d) => {
                let name_len = listing[i].as_str().unicode_len();
                let base_len = base_file_name.unicode_len();
                let d_len = d.as_str().unicode_len();
                let fits = name_len >= 6 && name_len - 6 >= base_len && name_len - 6 - base_len == d_len
                    && starts_with_text(listing[i].as_str(), base_file_name);
                proof {
                    assert forall|dd: Seq<char>, bb: Seq<char>| plain_copy_name(base, name, dd, bb) implies fits && dd == d@ by {
                        assert(name == numbered_name(base, dd, bb));
                        assert(dd == d@);
                        lemma_numbered_name_prefix(base, dd, bb);
                    }
                }
                if fits {
                    let ghost dv = d@;
                    r.push((listing[i].clone(), d));
                    proof {
                        assert(pair_views(r@) =~= pair_views(before).push((name, dv)));
                        let (p, b) = choose|p: Seq<char>, b: Seq<char>| name == numbered_name(p, dv, b) && no_line_feed(p) && is_bak(b);
                        lemma_numbered_name_prefix(p, dv, b);
                        assert(p.len() == base.len());
                        assert(p == base);
                        assert(name == numbered_name(base, dv, b));
                        assert(copy_entry(base, name, dv));
                        assert forall|k: int| 0 <= k < r@.len() implies copy_entry(base, (#[trigger] pair_views(r@)[k]).0, pair_views(r@)[k].1) by {
                            if k < before.len() {
                                assert(pair_views(r@)[k] == pair_views(before)[k]);
                            } else {
                                assert(pair_views(r@)[k] == (name, dv));
                            }
                        }
                        assert forall|j: int, dd: Seq<char>, bb: Seq<char>|
                            0 <= j < i + 1 && plain_copy_name(base, listing@[j]@, dd, bb) implies pair_views(r@).contains((listing@[j]@, dd)) by {
                            if j < i {
                                let k = choose|k: int| 0 <= k < pair_views(before).len() && pair_views(before)[k] == (listing@[j]@, dd);
                                assert(pair_views(r@)[k] == pair_views(before)[k]);
                            } else {
                                assert(pair_views(r@)[before.len() as int] == (name, dv));
                            }
                        }
                    }
                }
            },
            None => {},
        }
        proof {
            if r@ == before {
                assert forall|j: int, dd: Seq<char>, bb: Seq<char>|
                    0 <= j < i + 1 && plain_copy_name(base, listing@[j]@, dd, bb) implies pair_views(r@).contains((listing@[j]@, dd)) by {
                    if j == i {
                        assert(listing@[j]@ == numbered_name(base, dd, bb));
                    }
                }
            }
        }
        i = i + 1;
    }
    proof {
        assert(all.take(listing@.len() as int) =~= all);
    }
    r
}

/// What std's `str::parse::<u8>` gives: an optional `+`, then at least one ASCII
/// digit and nothing else, of a value up to 255.
pub open spec fn parse_u8_spec(s: Seq<char>) -> Option<u8> {
    let t = if s.len() > 0 && s[0] == '+' { s.drop_first() } else { s };
    if t.len() > 0 && all_digits(t) && digits_value(t) <= 255 {
        Some(digits_value(t) as u8)
    } else {
        None
    }
}

proof fn lemma_digits_value_grows(s: Seq<char>, c: char)
    requires
        all_digits(s),
        '0' <= c <= '9',
    ensures
        digits_value(s.push(c)) >= digits_value(s),
        digits_value(s) >= 0,
    decreases s.len(),
{
    assert(s.push(c).drop_last() =~= s);
    lemma_digits_value_nonneg(s);
}

proof fn lemma_digits_value_nonneg(s: Seq<char>)
    requires
        all_digits(s),
    ensures
        digits_value(s) >= 0,
    decreases s.len(),
{
    if s.len() > 0 {
        assert(all_digits(s.drop_last())) by {
            assert forall|i: int| 0 <= i < s.drop_last().len() implies '0' <= #[trigger] s.drop_last()[i] <= '9' by {
                assert(s.drop_last()[i] == s[i]);
            }
        }
        lemma_digits_value_nonneg(s.drop_last());
    }
}

proof fn lemma_digits_value_monotone(s: Seq<char>, k: int)
    requires
        all_digits(s),
        0 <= k <= s.len(),
    ensures
        digits_value(s.take(k)) <= digits_value(s),
    decreases s.len() - k,
{
    if k < s.len() {
        let t = s.take(k + 1);
        assert(t.drop_last() =~= s.take(k));
        assert(all_digits(s.take(k))) by {
            assert forall|i: int| 0 <= i < s.take(k).len() implies '0' <= #[trigger] s.take(k)[i] <= '9' by {
                assert(s.take(k)[i] == s[i]);
            }
        }
        lemma_digits_value_grows(s.take(k), s[k]);
        assert(s.take(k).push(s[k]) =~= t);
        lemma_digits_value_monotone(s, k + 1);
    } else {
        assert(s.take(k) =~= s);
    }
}

/// Reads a number from 0 to 255 the way std's `str::parse::<u8>` does.
pub fn parse_u8(s: &str) -> (r: Option<u8>)
    ensures
        r == parse_u8_spec(s@),
{
    let cs = crate::text::chars_of(s);
    let start: usize = if cs.len() > 0 && cs[0] == '+' { 1 } else { 0 };
    let ghost t = if s@.len() > 0 && s@[0] == '+' { s@.drop_first() } else { s@ };
    proof {
        assert(t =~= cs@.subrange(start as int, cs@.len() as int));
    }
    if start >= cs.len() {
        return None;
    }
    let mut value: u32 = 0;
    let mut i: usize = start;
    while i < cs.len()
        invariant
            start <= i <= cs@.len(),
            cs@ == s@,
            t == cs@.subrange(start as int, cs@.len() as int),
            t == (if s@.len() > 0 && s@[0] == '+' { s@.drop_first() } else { s@ }),
            all_digits(t.take(i - start)),
            value == digits_value(t.take(i - start)),
            value <= 255,
        decreases cs@.len() - i,
    {
        let c = cs[i];
        let ghost k = i - start;
        if c < '0' || c > '9' {
            proof {
                assert(cs@[i as int] == c);
                assert(t[k] == c);
                assert(!all_digits(t));
            }
            return None;
        }
        let d: u32 = (c as u32) - ('0' as u32);
        proof {
            assert(t.take(k + 1).drop_last() =~= t.take(k));
            assert(t.take(k + 1).last() == c);
            assert(all_digits(t.take(k + 1))) by {
                assert forall|j: int| 0 <= j < t.take(k + 1).len() implies '0' <= #[trigger] t.take(k + 1)[j] <= '9' by {
                    if j < k {
                        assert(t.take(k + 1)[j] == t.take(k)[j]);
                    }
                }
            }
        }
        value = value * 10 + d;
        proof {
            assert(d == c as int - '0' as int);
            assert(value == digits_value(t.take(k + 1)));
        }
        if value > 255 {
            proof {
                if all_digits(t) {
                    lemma_digits_value_monotone(t, k + 1);
                }
            }
            return None;
        }
        i = i + 1;
    }
    proof {
        assert(t.take(t.len() as int) =~= t);
    }
    Some(value as u8)
}

/// Whether every backup copy's digits read as a number from 0 to 255.
pub open spec fn all_numbers_read(files: Seq<(Seq<char>, Seq<char>)>) -> bool {
    forall|i: int| 0 <= i < files.len() ==> (#[trigger] parse_u8_spec(files[i].1)) is Some
}

/// The number a backup copy's digits read as (0 where they do not read).
pub open spec fn number_of(digits: Seq<char>) -> u8 {
    match parse_u8_spec(digits) {
        Some(n) => n,
        None => 0,
    }
}

/// The backup copies with their numbers.
pub open spec fn with_numbers(files: Seq<(Seq<char>, Seq<char>)>) -> Seq<(Seq<char>, u8)> {
    files.map_values(|f: (Seq<char>, Seq<char>)| (f.0, number_of(f.1)))
}

/// Inserts a numbered copy into a list in descending order of number, after every
/// copy whose number is at least its own.
pub open spec fn insert_by_number(s: Seq<(Seq<char>, u8)>, x: (Seq<char>, u8)) -> Seq<(Seq<char>, u8)>
    decreases s.len(),
{
    if s.len() == 0 {
        seq![x]
    } else if s.last().1 >= x.1 {
        s.push(x)
    } else {
        insert_by_number(s.drop_last(), x).push(s.last())
    }
}

/// Numbered copies in descending order of number, copies with equal numbers in
/// their original order (the order std's stable `sort_by` gives with the numbers
/// compared in reverse).
pub open spec fn sort_by_number_desc(s: Seq<(Seq<char>, u8)>) -> Seq<(Seq<char>, u8)>
    decreases s.len(),
{
    if s.len() == 0 {
        s
    } else {
        insert_by_number(sort_by_number_desc(s.drop_last()), s.last())
    }
}

proof fn lemma_insert_by_number_at(s: Seq<(Seq<char>, u8)>, x: (Seq<char>, u8), j: int)
    requires
        0 <= j <= s.len(),
        j == 0 || s[j - 1].1 >= x.1,
        forall|k: int| j <= k < s.len() ==> #[trigger] s[k].1 < x.1,
    ensures
        insert_by_number(s, x) == s.insert(j, x),
    decreases s.len(),
{
    if s.len() == 0 {
        assert(s.insert(j, x) =~= seq![x]);
    } else if j == s.len() {
        assert(s.insert(j, x) =~= s.push(x));
    } else {
        lemma_insert_by_number_at(s.drop_last(), x, j);
        assert(s.insert(j, x) =~= s.drop_last().insert(j, x).push(s.last()));
    }
}

/// Sorts numbered copies in descending order of number, stably.
pub fn sort_by_number_desc_exec(items: &Vec<(String, u8)>) -> (r: Vec<(String, u8)>)
    ensures
        numbered_views(r@) == sort_by_number_desc(numbered_views(items@)),
{
    let ghost all = numbered_views(items@);
    let mut sorted: Vec<(String, u8)> = Vec::new();
    let mut i: usize = 0;
    while i < items.len()
        invariant
            0 <= i <= items@.len(),
            all == numbered_views(items@),
            numbered_views(sorted@) == sort_by_number_desc(all.take(i as int)),
        decreases items@.len() - i,
    {
        let x = (items[i].0.clone(), items[i].1);
        proof {
            assert(all.take(i as int + 1).drop_last() =~= all.take(i as int));
            assert(all.take(i as int + 1).last() == (x.0@, x.1));
        }
        let mut j = sorted.len();
        while j > 0 && sorted[j - 1].1 < x.1
            invariant
                0 <= j <= sorted@.len(),
                forall|k: int| j <= k < sorted@.len() ==> #[trigger] sorted@[k].1 < x.1,
            decreases j,
        {
            j = j - 1;
        }
        proof {
            let ns = numbered_views(sorted@);
            assert forall|k: int| j <= k < ns.len() implies #[trigger] ns[k].1 < x.1 by {
                assert(ns[k].1 == sorted@[k].1);
            }
            if j > 0 {
                assert(ns[j - 1].1 == sorted@[j - 1].1);
            }
            lemma_insert_by_number_at(ns, (x.0@, x.1), j as int);
        }
        let ghost before = sorted@;
        sorted.insert(j, x);
        proof {
            assert(numbered_views(sorted@) =~= numbered_views(before).insert(j as int, (x.0@, x.1)));
        }
        i = i + 1;
    }
    proof {
        assert(all.take(items@.len() as int) =~= all);
    }
    sorted
}

/// The views of a list of numbered names.
pub open spec fn numbered_views(v: Seq<(String, u8)>) -> Seq<(Seq<char>, u8)> {
    v.map_values(|p: (String, u8)| (p.0@, p.1))
}

/// The name a backup copy of a file moves to: the file's name with the next number.
pub open spec fn rotated_name(base: Seq<char>, n: u8) -> Seq<char> {
    base + seq!['('] + decimal(n as nat + 1) + seq![')', '.', 'b', 'a', 'k']
}

/// The renames that move each backup copy one number up, the oldest first; `None`
/// where a copy's number does not read as a number from 0 to 254 (where the
/// renaming stops with a panic before it renames anything).
pub open spec fn backup_renames_spec(base: Seq<char>, files: Seq<(Seq<char>, Seq<char>)>) -> Option<Seq<(Seq<char>, Seq<char>)>> {
    if all_numbers_read(files) && (forall|i: int| 0 <= i < files.len() ==> #[trigger] number_of(files[i].1) < 255) {
        Some(sort_by_number_desc(with_numbers(files)).map_values(|f: (Seq<char>, u8)| (f.0, rotated_name(base, f.1))))
    } else {
        None
    }
}

/// The renames that move the backup copies found in a directory listing one number
/// up (see `backup_renames_spec`).
pub fn backup_renames(base_file_name: &str, listing: &Vec<String>) -> (r: Option<Vec<(String, String)>>)
    ensures
        match r {
            Some(v) => backup_renames_spec(base_file_name@, backup_files(base_file_name@, name_views(listing@))) == Some(pair_views(v@)),
            None => backup_renames_spec(base_file_name@, backup_files(base_file_name@, name_views(listing@))) is None,
        },
{
    let files = find_backup_files(base_file_name, listing);
    let ghost fs = pair_views(files@);
    let mut numbered: Vec<(String, u8)> = Vec::new();
    let mut i: usize = 0;
    while i < files.len()
        invariant
            0 <= i <= files@.len(),
            fs == pair_views(files@),
            fs == backup_files(base_file_name@, name_views(listing@)),
            all_numbers_read(fs.take(i as int)),
            forall|k: int| 0 <= k < i ==> #[trigger] number_of(fs[k].1) < 255,
            numbered_views(numbered@) == with_numbers(fs.take(i as int)),
        decreases files@.len() - i,
    {
        let n = parse_u8(files[i].1.as_str());
        match n {
            None => {
                proof {
                    assert(parse_u8_spec(fs[i as int].1) is None);
                }
                return None;
            },
            Some(k) => {
                if k == 255 {
                    proof {
                        assert(number_of(fs[i as int].1) == 255);
                    }
                    return None;
                }
                let ghost before = numbered@;
                numbered.push((files[i].0.clone(), k));
                proof {
                    assert(fs.take(i as int + 1) =~= fs.take(i as int).push(fs[i as int]));
                    let a = numbered_views(numbered@);
                    let b = with_numbers(fs.take(i as int + 1));
                    assert(numbered_views(before).len() == before.len());
                    assert(with_numbers(fs.take(i as int)).len() == i);
                    assert(a.len() == i + 1);
                    assert(b.len() == i + 1);
                    assert forall|j: int| 0 <= j < b.len() implies a[j] == b[j] by {
                        if j < i {
                            assert(a[j] == numbered_views(before)[j]);
                            assert(with_numbers(fs.take(i as int))[j] == b[j]);
                        } else {
                            assert(number_of(fs[i as int].1) == k);
                        }
                    }
                    assert(a =~= b);
                    assert forall|m: int| 0 <= m < fs.take(i as int + 1).len() implies (#[trigger] parse_u8_spec(fs.take(i as int + 1)[m].1)) is Some by {
                        if m < i {
                            assert(fs.take(i as int + 1)[m] == fs.take(i as int)[m]);
                        }
                    }
                }
            },
        }
        i = i + 1;
    }
    proof {
        assert(fs.take(files@.len() as int) =~= fs);
    }
    let sorted = sort_by_number_desc_exec(&numbered);
    let mut r: Vec<(String, String)> = Vec::new();
    let mut k: usize = 0;
    while k < sorted.len()
        invariant
            0 <= k <= sorted@.len(),
            pair_views(r@) == numbered_views(sorted@).take(k as int).map_values(|f: (Seq<char>, u8)| (f.0, rotated_name(base_file_name@, f.1))),
        decreases sorted@.len() - k,
    {
        let mut target = string_of(base_file_name);
        push_str(&mut target, "(");
        let d = u64_to_decimal(sorted[k].1 as u64 + 1);
        push_str(&mut target, d.as_str());
        push_str(&mut target, ").bak");
        proof {
            reveal_strlit("(");
            reveal_strlit(").bak");
            assert(target@ =~= rotated_name(base_file_name@, sorted@[k as int].1));
        }
        let ghost before = r@;
        r.push((sorted[k].0.clone(), target));
        proof {
            let a = pair_views(r@);
            let b = numbered_views(sorted@).take(k as int + 1).map_values(|f: (Seq<char>, u8)| (f.0, rotated_name(base_file_name@, f.1)));
            assert(pair_views(before).len() == before.len());
            assert(numbered_views(sorted@).take(k as int).map_values(|f: (Seq<char>, u8)| (f.0, rotated_name(base_file_name@, f.1))).len() == k);
            assert(a.len() == k + 1);
            assert(b.len() == k + 1);
            assert forall|j: int| 0 <= j < b.len() implies a[j] == b[j] by {
                if j < k {
                    assert(a[j] == pair_views(before)[j]);
                    assert(numbered_views(sorted@).take(k as int).map_values(|f: (Seq<char>, u8)| (f.0, rotated_name(base_file_name@, f.1)))[j] == b[j]);
                }
            }
            assert(a =~= b);
        }
        k = k + 1;
    }
    proof {
        assert(numbered_views(sorted@).take(sorted@.len() as int) =~= numbered_views(sorted@));
    }
    Some(r)
}

/// The name of a file's newest backup copy: the file's name and `(0).bak`.
pub open spec fn first_backup_name(base: Seq<char>) -> Seq<char> {
    base + seq!['(', '0', ')', '.', 'b', 'a', 'k']
}

/// The backup copies that pruning removes, in the order listed: those numbered
/// `number_of_copies - 1` or more (which the rotation would move to a number of
/// `number_of_copies` or more, so that at most `number_of_copies` copies remain),
/// up to the first copy whose number does not read (where the pruning stops with
/// a panic).
pub open spec fn prune_deletions(files: Seq<(Seq<char>, Seq<char>)>, number_of_copies: u8) -> Seq<Seq<char>>
    decreases files.len(),
{
    if files.len() == 0 {
        Seq::empty()
    } else {
        let rest = prune_deletions(files.drop_last(), number_of_copies);
        if !all_numbers_read(files.drop_last()) {
            rest
        } else {
            match parse_u8_spec(files.last().1) {
                Some(k) => if k as int + 1 >= number_of_copies { rest.push(files.last().0) } else { rest },
                None => rest,
            }
        }
    }
}

/// How a backup of a file begins, from what its directory holds.
pub enum BackupStart {
    /// There is no `(0).bak` copy yet: copy the file to it, and that is all.
    CreateFirstBackup,
    /// There are as many copies as asked for, or more: delete these (in this
    /// order), then, where `complete`, list the directory again and rotate; where
    /// not, a copy's number did not read and the backup stops with a panic.
    Prune { deletions: Vec<String>, complete: bool },
    /// Rotate the copies now listed, then copy the file to `(0).bak`.
    Rotate,
}

/// Decides how a backup of the file named `base_file_name` begins, given the names
/// its directory holds: create the first copy, prune old copies, or rotate.
pub fn backup_start(base_file_name: &str, listing: &Vec<String>, number_of_copies: u8) -> (r: BackupStart)
    ensures
        (r is CreateFirstBackup) == !backup_files(base_file_name@, name_views(listing@)).map_values(|f: (Seq<char>, Seq<char>)| f.0).contains(first_backup_name(base_file_name@)),
        (r is Prune) == (backup_files(base_file_name@, name_views(listing@)).map_values(|f: (Seq<char>, Seq<char>)| f.0).contains(first_backup_name(base_file_name@))
            && backup_files(base_file_name@, name_views(listing@)).len() >= number_of_copies),
        r matches BackupStart::Prune { deletions, complete } ==> (
            name_views(deletions@) == prune_deletions(backup_files(base_file_name@, name_views(listing@)), number_of_copies)
            && complete == all_numbers_read(backup_files(base_file_name@, name_views(listing@)))),
{
    let files = find_backup_files(base_file_name, listing);
    let ghost fs = pair_views(files@);
    let ghost names = fs.map_values(|f: (Seq<char>, Seq<char>)| f.0);
    let mut first = string_of(base_file_name);
    push_str(&mut first, "(0).bak");
    proof {
        reveal_strlit("(0).bak");
        assert(first@ =~= first_backup_name(base_file_name@));
    }
    let mut found = false;
    let mut i: usize = 0;
    while i < files.len()
        invariant
            0 <= i <= files@.len(),
            fs == pair_views(files@),
            names == fs.map_values(|f: (Seq<char>, Seq<char>)| f.0),
            found == (exists|k: int| 0 <= k < i && names[k] == first@),
        decreases files@.len() - i,
    {
        if files[i].0 == first {
            proof {
                assert(names[i as int] == first@);
            }
            found = true;
        }
        i = i + 1;
    }
    proof {
        if found {
            let k = choose|k: int| 0 <= k < files@.len() && names[k] == first@;
            assert(names[k] == first@);
            assert(names.contains(first@));
        } else {
            assert(!names.contains(first@));
        }
    }
    if !found {
        return BackupStart::CreateFirstBackup;
    }
    if files.len() < number_of_copies as usize {
        return BackupStart::Rotate;
    }
    let mut deletions: Vec<String> = Vec::new();
    let mut j: usize = 0;
    while j < files.len()
        invariant
            0 <= j <= files@.len(),
            fs == pair_views(files@),
            fs == backup_files(base_file_name@, name_views(listing@)),
            names == fs.map_values(|f: (Seq<char>, Seq<char>)| f.0),
            names.contains(first_backup_name(base_file_name@)),
            files@.len() >= number_of_copies,
            all_numbers_read(fs.take(j as int)),
            name_views(deletions@) == prune_deletions(fs.take(j as int), number_of_copies),
        decreases files@.len() - j,
    {
        proof {
            assert(fs.take(j as int + 1).drop_last() =~= fs.take(j as int));
            assert(fs.take(j as int + 1).last() == fs[j as int]);
        }
        let n = parse_u8(files[j].1.as_str());
        match n {
            None => {
                proof {
                    assert(parse_u8_spec(fs[j as int].1) is None);
                    assert(!all_numbers_read(fs));
                    lemma_prune_stops(fs, j as int, number_of_copies);
                }
                return BackupStart::Prune { deletions, complete: false };
            },
            Some(k) => {
                if k as u16 + 1 >= number_of_copies as u16 {
                    let ghost before = deletions@;
                    deletions.push(files[j].0.clone());
                    proof {
                        assert(name_views(deletions@) =~= name_views(before).push(fs[j as int].0));
                    }
                }
                proof {
                    assert forall|m: int| 0 <= m < fs.take(j as int + 1).len() implies (#[trigger] parse_u8_spec(fs.take(j as int + 1)[m].1)) is Some by {
                        if m < j {
                            assert(fs.take(j as int + 1)[m] == fs.take(j as int)[m]);
                        }
                    }
                }
            },
        }
        j = j + 1;
    }
    proof {
        assert(fs.take(files@.len() as int) =~= fs);
    }
    BackupStart::Prune { deletions, complete: true }
}

proof fn lemma_prune_stops(fs: Seq<(Seq<char>, Seq<char>)>, j: int, n: u8)
    requires
        0 <= j < fs.len(),
        all_numbers_read(fs.take(j)),
        parse_u8_spec(fs[j].1) is None,
    ensures
        prune_deletions(fs, n) == prune_deletions(fs.take(j), n),
    decreases fs.len() - j,
{
    if j == fs.len() - 1 {
        assert(fs.drop_last() =~= fs.take(j));
    } else {
        let p = fs.drop_last();
        assert(p.take(j) =~= fs.take(j));
        assert(p[j] == fs[j]);
        lemma_prune_stops(p, j, n);
        assert(!all_numbers_read(p)) by {
            assert(parse_u8_spec(p[j].1) is None);
        }
    }
}

/// Whether numbered copies are in descending order of number.
pub open spec fn numbers_descending(s: Seq<(Seq<char>, u8)>) -> bool {
    forall|i: int, j: int| 0 <= i < j < s.len() ==> (#[trigger] s[i]).1 >= (#[trigger] s[j]).1
}

proof fn lemma_insert_by_number_keeps_order(s: Seq<(Seq<char>, u8)>, x: (Seq<char>, u8))
    requires
        numbers_descending(s),
    ensures
        numbers_descending(insert_by_number(s, x)),
        insert_by_number(s, x).to_multiset() == s.to_multiset().insert(x),
    decreases s.len(),
{
    broadcast use Seq::to_multiset_ensures;
    let r = insert_by_number(s, x);
    s.to_multiset_ensures();
    if s.len() == 0 {
        assert(r =~= s.push(x));
    } else if s.last().1 >= x.1 {
        assert(r == s.push(x));
        assert forall|i: int, j: int| 0 <= i < j < r.len() implies (#[trigger] r[i]).1 >= (#[trigger] r[j]).1 by {
            if j == r.len() - 1 {
                if i < s.len() - 1 {
                    assert(s[i].1 >= s[s.len() - 1].1);
                }
            } else {
                assert(r[i] == s[i]);
                assert(r[j] == s[j]);
            }
        }
    } else {
        let p = s.drop_last();
        assert(numbers_descending(p)) by {
            assert forall|i: int, j: int| 0 <= i < j < p.len() implies (#[trigger] p[i]).1 >= (#[trigger] p[j]).1 by {
                assert(p[i] == s[i]);
                assert(p[j] == s[j]);
            }
        }
        lemma_insert_by_number_keeps_order(p, x);
        let q = insert_by_number(p, x);
        q.to_multiset_ensures();
        p.to_multiset_ensures();
        assert(r == q.push(s.last()));
        assert forall|k: int| 0 <= k < q.len() implies (#[trigger] q[k]).1 >= s.last().1 by {
            assert(q.contains(q[k]));
            assert(q.to_multiset().count(q[k]) > 0);
            if q[k] != x {
                assert(p.to_multiset().insert(x).count(q[k]) > 0);
                assert(p.to_multiset().count(q[k]) > 0);
                assert(p.contains(q[k]));
                let m = choose|m: int| 0 <= m < p.len() && p[m] == q[k];
                assert(s[m] == q[k]);
                assert(s[m].1 >= s[s.len() - 1].1);
            }
        }
        assert forall|i: int, j: int| 0 <= i < j < r.len() implies (#[trigger] r[i]).1 >= (#[trigger] r[j]).1 by {
            if j == r.len() - 1 {
                assert(r[i] == q[i]);
            } else {
                assert(r[i] == q[i]);
                assert(r[j] == q[j]);
            }
        }
        assert(s =~= p.push(s.last()));
        assert(r.to_multiset() =~= s.to_multiset().insert(x));
    }
}

/// Sorting copies by number leaves them in descending order of number and keeps
/// every copy exactly as often as it was there: the rotation moves each copy once,
/// the oldest first.
pub proof fn lemma_sort_by_number_desc_sorts(s: Seq<(Seq<char>, u8)>)
    ensures
        numbers_descending(sort_by_number_desc(s)),
        sort_by_number_desc(s).to_multiset() == s.to_multiset(),
    decreases s.len(),
{
    broadcast use Seq::to_multiset_ensures;
    if s.len() > 0 {
        lemma_sort_by_number_desc_sorts(s.drop_last());
        lemma_insert_by_number_keeps_order(sort_by_number_desc(s.drop_last()), s.last());
        s.drop_last().to_multiset_ensures();
        assert(s =~= s.drop_last().push(s.last()));
    }
}

proof fn lemma_decimal_not_zero(k: nat)
    requires
        k >= 1,
    ensures
        decimal(k).len() >= 2 || (decimal(k).len() == 1 && decimal(k)[0] != '0'),
    decreases k,
{
    if k >= 10 {
        lemma_decimal_not_zero(k / 10);
    }
}

proof fn lemma_rotated_name_is_not_first(base: Seq<char>, n: u8)
    ensures
        rotated_name(base, n) != first_backup_name(base),
{
    let d = decimal(n as nat + 1);
    lemma_decimal_not_zero(n as nat + 1);
    let r = rotated_name(base, n);
    let f = first_backup_name(base);
    if d.len() == 1 {
        assert(r[base.len() as int + 1] == d[0]);
        assert(f[base.len() as int + 1] == '0');
    } else {
        assert(r.len() != f.len());
    }
}

/// Rotating the backup copies frees the newest copy's name: no copy is renamed to
/// `(0).bak`, so the file can then be copied there.
pub proof fn lemma_rotation_frees_first_backup(base: Seq<char>, files: Seq<(Seq<char>, Seq<char>)>)
    ensures
        backup_renames_spec(base, files) matches Some(plan) ==> forall|i: int|
            0 <= i < plan.len() ==> (#[trigger] plan[i]).1 != first_backup_name(base),
{
    if let Some(plan) = backup_renames_spec(base, files) {
        let sorted = sort_by_number_desc(with_numbers(files));
        assert forall|i: int| 0 <= i < plan.len() implies (#[trigger] plan[i]).1 != first_backup_name(base) by {
            assert(plan[i].1 == rotated_name(base, sorted[i].1));
            lemma_rotated_name_is_not_first(base, sorted[i].1);
        }
    }
}

/// Pruning removes every copy that the rotation would move to a number of
/// `number_of_copies` or more, so that after pruning, rotating and copying the file
/// to `(0).bak` the copies are numbered below `number_of_copies`: at most that many.
pub proof fn lemma_pruning_leaves_at_most_the_copies_asked_for(files: Seq<(Seq<char>, Seq<char>)>, n: u8)
    requires
        all_numbers_read(files),
    ensures
        forall|i: int|
            0 <= i < files.len() && number_of(files[i].1) as int + 1 >= n ==> #[trigger] prune_deletions(
                files,
                n,
            ).contains(files[i].0),
    decreases files.len(),
{
    if files.len() > 0 {
        let p = files.drop_last();
        assert(all_numbers_read(p)) by {
            assert forall|i: int| 0 <= i < p.len() implies (#[trigger] parse_u8_spec(p[i].1)) is Some by {
                assert(p[i] == files[i]);
                assert(parse_u8_spec(files[i].1) is Some);
            }
        }
        lemma_pruning_leaves_at_most_the_copies_asked_for(p, n);
        let rest = prune_deletions(p, n);
        let last = files.last();
        assert(parse_u8_spec(files[files.len() - 1].1) is Some);
        assert forall|i: int|
            0 <= i < files.len() && number_of(files[i].1) as int + 1 >= n implies #[trigger] prune_deletions(
                files,
                n,
            ).contains(files[i].0) by {
            let r = prune_deletions(files, n);
            if i < files.len() - 1 {
                assert(files[i] == p[i]);
                assert(rest.contains(p[i].0));
                let k = choose|k: int| 0 <= k < rest.len() && rest[k] == p[i].0;
                assert(r[k] == rest[k]);
            } else {
                assert(r == rest.push(last.0));
                assert(r[rest.len() as int] == last.0);
            }
        }
    }
}

} // verus!
