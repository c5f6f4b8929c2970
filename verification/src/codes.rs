use vstd::prelude::*;
use vstd::string::*;
use crate::error::APIErr;
use crate::parse::{find_char_from, find_pat_from, lemma_find_char_bounds, lemma_find_pat_bounds};

verus! {

// The list-storage service stores a batch of song codes as one string:
// every code followed by a comma, the whole wrapped in quotes by the
// service's JSON encoding.  These functions encode and decode that
// format, and recover codes from the names of already-unpacked song
// directories.

/// Splitting a character sequence at every occurrence of `sep`.
/// The empty sequence splits into one empty piece, as `str::split` has it.
pub open spec fn spec_split(s: Seq<char>, sep: char) -> Seq<Seq<char>>
    decreases s.len(),
{
    match find_char_from(s, sep, 0, s.len() as int) {
        None => seq![s],
        Some(i) => if 0 <= i < s.len() {
            seq![s.subrange(0, i)] + spec_split(s.subrange(i + 1, s.len() as int), sep)
        } else {
            seq![s]
        },
    }
}

/// Joining pieces with a trailing comma after every piece, the format
/// the upload side produces: `a,b,c,`.
pub open spec fn spec_join_commas(l: Seq<Seq<char>>) -> Seq<char>
    decreases l.len(),
{
    if l.len() == 0 {
        Seq::empty()
    } else {
        spec_join_commas(l.drop_last()) + l.last() + ","@
    }
}

/// The two character sequences are equal.
pub(crate) fn str_eq(a: &str, b: &str) -> (r: bool)
    ensures
        r == (a@ == b@),
{
    let n = a.unicode_len();
    if n != b.unicode_len() {
        return false;
    }
    let mut i: usize = 0;
    while i < n
        invariant
            n == a@.len(),
            n == b@.len(),
            0 <= i <= n,
            forall|k: int| 0 <= k < i ==> a@[k] == b@[k],
        decreases n - i,
    {
        if a.get_char(i) != b.get_char(i) {
            assert(a@ != b@) by {
                assert(a@[i as int] != b@[i as int]);
            }
            return false;
        }
        i += 1;
    }
    assert(a@ =~= b@);
    true
}

/// Splits `s` at every `sep`, collecting the pieces.
fn split_chars(s: &str, sep: char) -> (r: Vec<String>)
    ensures
        r.deep_view() == spec_split(s@, sep),
{
    let mut pieces: Vec<String> = Vec::new();
    let mut rem: &str = s;
    loop
        invariant
            pieces.deep_view() + spec_split(rem@, sep) =~= spec_split(s@, sep),
        decreases rem@.len(),
    {
        let n = rem.unicode_len();
        let ghost old_deep = pieces.deep_view();
        let ghost old_rem = rem@;
        match crate::parse::find_char(rem, sep, 0, n) {
            None => {
                pieces.push(String::from_str(rem));
                proof {
                    assert(pieces.deep_view() =~= old_deep.push(old_rem));
                    assert(pieces.deep_view() =~= spec_split(s@, sep));
                }
                return pieces;
            },
            Some(i) => {
                proof {
                    lemma_find_char_bounds(rem@, sep, 0, n as int, i as int);
                }
                let piece = rem.substring_char(0, i);
                pieces.push(String::from_str(piece));
                rem = rem.substring_char(i + 1, n);
                proof {
                    assert(pieces.deep_view() =~= old_deep.push(old_rem.subrange(0, i as int)));
                    assert(spec_split(old_rem, sep) == seq![old_rem.subrange(0, i as int)]
                        + spec_split(old_rem.subrange(i + 1, old_rem.len() as int), sep));
                    assert(pieces.deep_view() + spec_split(rem@, sep) =~= spec_split(s@, sep));
                }
            },
        }
    }
}

/// Decodes a stored code list.  The literal body `null` means the index
/// holds no list.  Any other body is unwrapped (its first character and
/// its last two are the service's quoting and the trailing comma) and
/// split at commas.  A body too short to unwrap only arises from a
/// service fault, so it is ruled out.
pub fn parse_code_list(contents: &str) -> (r: Result<Vec<String>, APIErr>)
    requires
        contents@ == "null"@ || contents@.len() >= 3,
    ensures
        match r {
            Ok(list) => contents@ != "null"@ && list.deep_view() == spec_split(
                contents@.subrange(1, contents@.len() - 2),
                ',',
            ),
            Err(e) => e == APIErr::IndexNotFound && contents@ == "null"@,
        },
{
    if str_eq(contents, "null") {
        return Err(APIErr::IndexNotFound);
    }
    let n = contents.unicode_len();
    let inner = contents.substring_char(1, n - 2);
    Ok(split_chars(inner, ','))
}

/// Encodes a code list for upload: every code followed by a comma.
pub fn serialize_code_list(codes: &Vec<String>) -> (r: String)
    ensures
        r@ == spec_join_commas(codes.deep_view()),
{
    let mut out = String::new();
    let mut i: usize = 0;
    while i < codes.len()
        invariant
            0 <= i <= codes@.len(),
            out@ == spec_join_commas(codes.deep_view().take(i as int)),
        decreases codes@.len() - i,
    {
        out.append(codes[i].as_str());
        out.append(",");
        proof {
            assert(codes.deep_view().take(i + 1).drop_last() =~= codes.deep_view().take(i as int));
            assert(codes.deep_view().take(i + 1).last() == codes.deep_view()[i as int]);
        }
        i += 1;
    }
    proof {
        assert(codes.deep_view().take(codes@.len() as int) =~= codes.deep_view());
    }
    out
}

/// `c` is a decimal digit.
pub open spec fn spec_is_digit(c: char) -> bool {
    '0' as u32 <= c as u32 && c as u32 <= '9' as u32
}

/// The number the decimal digits of `s` spell, most significant first.
pub open spec fn spec_digits_val(s: Seq<char>) -> int
    decreases s.len(),
{
    if s.len() == 0 {
        0
    } else {
        spec_digits_val(s.drop_last()) * 10 + (s.last() as u32 - '0' as u32)
    }
}

pub proof fn lemma_digits_nonneg(s: Seq<char>)
    requires
        forall|k: int| 0 <= k < s.len() ==> spec_is_digit(s[k]),
    ensures
        spec_digits_val(s) >= 0,
    decreases s.len(),
{
    if s.len() > 0 {
        assert(forall|k: int| 0 <= k < s.drop_last().len() ==> s.drop_last()[k] == s[k]);
        lemma_digits_nonneg(s.drop_last());
    }
}

pub proof fn lemma_digits_prefix(s: Seq<char>, m: int)
    requires
        forall|k: int| 0 <= k < s.len() ==> spec_is_digit(s[k]),
        0 <= m <= s.len(),
    ensures
        0 <= spec_digits_val(s.take(m)) <= spec_digits_val(s),
    decreases s.len() - m,
{
    assert(forall|k: int| 0 <= k < m ==> s.take(m)[k] == s[k]);
    lemma_digits_nonneg(s.take(m));
    if m < s.len() {
        lemma_digits_prefix(s, m + 1);
        assert(s.take(m + 1).drop_last() =~= s.take(m));
        assert(spec_digits_val(s.take(m + 1)) == spec_digits_val(s.take(m)) * 10 + (s[m] as u32
            - '0' as u32));
    } else {
        assert(s.take(m) =~= s);
    }
}

/// Decodes the numeric key allocator's body: the body's first and last
/// characters are the service's quoting, and the digits between them
/// spell the key.  Any other body denotes a service fault, so only
/// digit bodies within the key type's range are admitted.
pub fn parse_index(contents: &str) -> (r: u8)
    requires
        contents@.len() >= 2,
        forall|k: int| 1 <= k < contents@.len() - 1 ==> spec_is_digit(contents@[k]),
        spec_digits_val(contents@.subrange(1, contents@.len() - 1)) <= 255,
    ensures
        r == spec_digits_val(contents@.subrange(1, contents@.len() - 1)),
{
    let n = contents.unicode_len();
    let ghost inner = contents@.subrange(1, n as int - 1);
    proof {
        assert(forall|k: int| 0 <= k < inner.len() ==> inner[k] == contents@[k + 1]);
        assert(inner.take(0) =~= Seq::<char>::empty());
    }
    let mut val: u32 = 0;
    let mut i: usize = 1;
    while i < n - 1
        invariant
            n == contents@.len(),
            n >= 2,
            1 <= i <= n - 1,
            inner == contents@.subrange(1, n as int - 1),
            forall|k: int| 1 <= k < n - 1 ==> spec_is_digit(contents@[k]),
            spec_digits_val(inner) <= 255,
            val == spec_digits_val(inner.take(i - 1)),
            val <= 255,
        decreases n - 1 - i,
    {
        let c = contents.get_char(i);
        proof {
            assert(inner[i - 1] == contents@[i as int]);
            assert(spec_is_digit(c));
            assert(forall|k: int| 0 <= k < inner.len() ==> spec_is_digit(inner[k]));
            lemma_digits_prefix(inner, i as int);
            assert(inner.take(i as int).drop_last() =~= inner.take(i - 1));
            assert(inner.take(i as int).last() == inner[i - 1]);
        }
        let d = (c as u32) - 48;
        val = val * 10 + d;
        i += 1;
    }
    proof {
        assert(inner.take(i - 1) =~= inner);
    }
    val as u8
}

/// The key the allocator hands out next: one past `index`, wrapping
/// around at the key type's end.
pub fn next_index(index: u8) -> (r: u8)
    ensures
        index < 255 ==> r == index + 1,
        index == 255 ==> r == 0,
{
    if index == 255 {
        0
    } else {
        index + 1
    }
}

/// A code recovered from the name of an unpacked song directory:
/// everything before the first ` (`, provided it is at most five
/// characters long.
pub fn code_from_filename(name: &str) -> (r: Option<String>)
    ensures
        match find_pat_from(name@, " ("@, 0) {
            None => r is None,
            Some(end) => if end <= 5 {
                r matches Some(code) && code@ == name@.subrange(0, end)
            } else {
                r is None
            },
        },
{
    proof {
        reveal_strlit(" (");
    }
    match crate::parse::find_pat(name, " (") {
        None => None,
        Some(end) => {
            proof {
                lemma_find_pat_bounds(name@, " ("@, 0, end as int);
            }
            if end <= 5 {
                let code = name.substring_char(0, end);
                Some(String::from_str(code))
            } else {
                None
            }
        },
    }
}

} // verus!
