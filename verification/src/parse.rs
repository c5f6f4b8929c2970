use vstd::prelude::*;
use vstd::string::*;
use crate::error::APIErr;
use crate::song::SongInfo;

verus! {

// The metadata endpoint answers with a JSON-like text body.  The three
// fields of interest are located by a marker scan: find a field label,
// then read forward to the next comma, and cut the value out between
// fixed offsets.  The scan is specified here as spec functions and the
// executable parser is proved to agree with them exactly.

/// `pat` occurs in `s` at position `i`.
pub open spec fn match_at(s: Seq<char>, pat: Seq<char>, i: int) -> bool {
    &&& 0 <= i
    &&& i + pat.len() <= s.len()
    &&& s.subrange(i, i + pat.len() as int) == pat
}

/// The first position at or after `i` where `pat` occurs in `s`.
pub open spec fn find_pat_from(s: Seq<char>, pat: Seq<char>, i: int) -> Option<int>
    decreases s.len() - i
        when 0 <= i && pat.len() >= 1
{
    if i + pat.len() > s.len() {
        None
    } else if match_at(s, pat, i) {
        Some(i)
    } else {
        find_pat_from(s, pat, i + 1)
    }
}

/// The first position in `[i, upto)` holding the character `c`.
pub open spec fn find_char_from(s: Seq<char>, c: char, i: int, upto: int) -> Option<int>
    decreases upto - i
        when 0 <= i && upto <= s.len()
{
    if i >= upto {
        None
    } else if s[i] == c {
        Some(i)
    } else {
        find_char_from(s, c, i + 1, upto)
    }
}

pub proof fn lemma_find_pat_bounds(s: Seq<char>, pat: Seq<char>, i: int, j: int)
    requires
        0 <= i,
        pat.len() >= 1,
        find_pat_from(s, pat, i) == Some(j),
    ensures
        i <= j,
        match_at(s, pat, j),
        forall|k: int| i <= k < j ==> !match_at(s, pat, k),
    decreases s.len() - i,
{
    if i + pat.len() > s.len() {
    } else if match_at(s, pat, i) {
    } else {
        lemma_find_pat_bounds(s, pat, i + 1, j);
    }
}

pub proof fn lemma_find_char_bounds(s: Seq<char>, c: char, i: int, upto: int, j: int)
    requires
        0 <= i,
        upto <= s.len(),
        find_char_from(s, c, i, upto) == Some(j),
    ensures
        i <= j < upto,
        s[j] == c,
        forall|k: int| i <= k < j ==> s[k] != c,
    decreases upto - i,
{
    if i >= upto {
    } else if s[i] == c {
    } else {
        lemma_find_char_bounds(s, c, i + 1, upto, j);
    }
}

/// One field of the response: locate `marker`, find the delimiting comma
/// before the end of the body, and cut the value out between the fixed
/// offsets `off` (after the marker's start) and `back` (before the comma).
/// `None` when the marker, the comma, or a sensible range is missing.
pub open spec fn spec_field(s: Seq<char>, marker: Seq<char>, off: int, back: int) -> Option<
    Seq<char>,
> {
    match find_pat_from(s, marker, 0) {
        None => None,
        Some(st) => match find_char_from(s, ',', st, s.len() - 1) {
            None => None,
            Some(end) => if 0 <= st + off && st + off <= end - back && end - back <= s.len() {
                Some(s.subrange(st + off, end - back))
            } else {
                None
            },
        },
    }
}

/// The three fields a metadata response must yield: the payload location,
/// the display name, and the author, in this order.  `None` when any of
/// them cannot be cut out of the body.
pub open spec fn spec_song_fields(s: Seq<char>) -> Option<(Seq<char>, Seq<char>, Seq<char>)> {
    let url = spec_field(s, "downloadURL"@, 15, 1);
    let name = spec_field(s, "songName"@, 12, 1);
    let author = spec_field(s, "levelAuthorName"@, 19, 7);
    match (url, name, author) {
        (Some(u), Some(n), Some(a)) => Some((u, n, a)),
        _ => None,
    }
}

/// `pat` occurs at position `i` of `s`.
fn is_match_at(s: &str, pat: &str, i: usize) -> (r: bool)
    requires
        i + pat@.len() <= s@.len(),
        i + pat@.len() <= usize::MAX,
    ensures
        r == match_at(s@, pat@, i as int),
{
    let m = pat.unicode_len();
    let mut j: usize = 0;
    while j < m
        invariant
            m == pat@.len(),
            i + m <= s@.len(),
            i + m <= usize::MAX,
            0 <= j <= m,
            forall|k: int| 0 <= k < j ==> s@[i + k] == pat@[k],
        decreases m - j,
    {
        if s.get_char(i + j) != pat.get_char(j) {
            assert(!match_at(s@, pat@, i as int)) by {
                assert(s@.subrange(i as int, i + m) != pat@) by {
                    assert(s@.subrange(i as int, i + m)[j as int] != pat@[j as int]);
                }
            }
            return false;
        }
        j += 1;
    }
    assert(s@.subrange(i as int, i + m) =~= pat@);
    true
}

/// The first occurrence of `pat` in `s`, as a character position.
pub(crate) fn find_pat(s: &str, pat: &str) -> (r: Option<usize>)
    requires
        pat@.len() >= 1,
    ensures
        match r {
            Some(j) => find_pat_from(s@, pat@, 0) == Some(j as int),
            None => find_pat_from(s@, pat@, 0) is None,
        },
{
    let n = s.unicode_len();
    let m = pat.unicode_len();
    if m > n {
        return None;
    }
    let mut i: usize = 0;
    while i <= n - m
        invariant
            n == s@.len(),
            m == pat@.len(),
            1 <= m <= n,
            0 <= i <= n - m + 1,
            find_pat_from(s@, pat@, 0) == find_pat_from(s@, pat@, i as int),
        decreases n - i,
    {
        if is_match_at(s, pat, i) {
            return Some(i);
        }
        i += 1;
    }
    None
}

/// The first position in `[from, upto)` of `s` holding the character `c`.
pub(crate) fn find_char(s: &str, c: char, from: usize, upto: usize) -> (r: Option<usize>)
    requires
        upto <= s@.len(),
    ensures
        match r {
            Some(j) => find_char_from(s@, c, from as int, upto as int) == Some(j as int),
            None => find_char_from(s@, c, from as int, upto as int) is None,
        },
{
    let mut i: usize = from;
    if i > upto {
        return None;
    }
    while i < upto
        invariant
            upto <= s@.len(),
            from <= i <= upto,
            find_char_from(s@, c, from as int, upto as int) == find_char_from(
                s@,
                c,
                i as int,
                upto as int,
            ),
        decreases upto - i,
    {
        if s.get_char(i) == c {
            return Some(i);
        }
        i += 1;
    }
    None
}

/// Cuts one field out of the response body, exactly as `spec_field` says.
fn extract_field(s: &str, marker: &str, off: usize, back: usize) -> (r: Option<String>)
    requires
        marker@.len() >= 1,
    ensures
        match r {
            Some(f) => spec_field(s@, marker@, off as int, back as int) == Some(f@),
            None => spec_field(s@, marker@, off as int, back as int) is None,
        },
{
    let n = s.unicode_len();
    let st = match find_pat(s, marker) {
        Some(st) => st,
        None => {
            return None;
        },
    };
    proof {
        lemma_find_pat_bounds(s@, marker@, 0, st as int);
    }
    if n == 0 {
        return None;
    }
    let end = match find_char(s, ',', st, n - 1) {
        Some(end) => end,
        None => {
            return None;
        },
    };
    proof {
        lemma_find_char_bounds(s@, ',', st as int, n - 1, end as int);
    }
    if back <= end && off <= end - back && st <= end - back - off {
        let sub = s.substring_char(st + off, end - back);
        Some(String::from_str(sub))
    } else {
        None
    }
}

/// Extracts the payload location, display name and author out of a
/// metadata response body, by the marker scan that `spec_song_fields`
/// describes.  A body that does not yield all three fields is rejected
/// as `SongNotFound`: the song cannot be resolved from it.
pub fn parse_song_info(id: String, contents: &str) -> (r: Result<SongInfo, APIErr>)
    ensures
        match spec_song_fields(contents@) {
            Some(fields) => match r {
                Ok(info) => info.id@ == id@ && info.download_url@ == fields.0 && info.name@
                    == fields.1 && info.author@ == fields.2,
                Err(_) => false,
            },
            None => r == Err::<SongInfo, APIErr>(APIErr::SongNotFound),
        },
{
    proof {
        reveal_strlit("downloadURL");
        reveal_strlit("songName");
        reveal_strlit("levelAuthorName");
    }
    let download_url = match extract_field(contents, "downloadURL", 15, 1) {
        Some(f) => f,
        None => {
            return Err(APIErr::SongNotFound);
        },
    };
    let name = match extract_field(contents, "songName", 12, 1) {
        Some(f) => f,
        None => {
            return Err(APIErr::SongNotFound);
        },
    };
    let author = match extract_field(contents, "levelAuthorName", 19, 7) {
        Some(f) => f,
        None => {
            return Err(APIErr::SongNotFound);
        },
    };
    Ok(SongInfo { id, name, author, download_url })
}

} // verus!
