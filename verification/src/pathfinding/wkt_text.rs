//! The structure of a well-known-text polygon, "POLYGON((x1 y1, x2 y2, ...))": where the
//! coordinate list stands, how it splits into coordinates, and the two number texts of each.
//! Reading the numbers themselves is left to the caller.
use vstd::prelude::*;
use vstd::string::{StrSliceExecFns, StringExecFns};

verus! {

/// Unicode white space, the characters `char::is_whitespace` accepts.
pub open spec fn is_white(c: char) -> bool {
    let u = c as u32;
    ||| 9 <= u <= 13
    ||| u == 32
    ||| u == 0x85
    ||| u == 0xA0
    ||| u == 0x1680
    ||| 0x2000 <= u <= 0x200A
    ||| u == 0x2028
    ||| u == 0x2029
    ||| u == 0x202F
    ||| u == 0x205F
    ||| u == 0x3000
}

fn is_white_char(c: char) -> (b: bool)
    ensures
        b == is_white(c),
{
    let u = c as u32;
    (9 <= u && u <= 13) || u == 32 || u == 0x85 || u == 0xA0 || u == 0x1680 || (0x2000 <= u && u
        <= 0x200A) || u == 0x2028 || u == 0x2029 || u == 0x202F || u == 0x205F || u == 0x3000
}

/// The first position at or after `i` and before `end` holding a character that is not
/// white space, or `end`.
pub open spec fn skip_white(s: Seq<char>, i: int, end: int) -> int
    decreases end - i,
{
    if i >= end {
        end
    } else if is_white(s[i]) {
        skip_white(s, i + 1, end)
    } else {
        i
    }
}

/// The first position at or after `i` and before `end` holding white space, or `end`.
pub open spec fn skip_word(s: Seq<char>, i: int, end: int) -> int
    decreases end - i,
{
    if i >= end {
        end
    } else if is_white(s[i]) {
        i
    } else {
        skip_word(s, i + 1, end)
    }
}

/// The end of `s[lo..hi]` with trailing white space dropped.
pub open spec fn trim_end(s: Seq<char>, lo: int, hi: int) -> int
    decreases hi - lo,
{
    if hi > lo && is_white(s[hi - 1]) {
        trim_end(s, lo, hi - 1)
    } else {
        hi
    }
}

/// The first position `p` at or after `i` with `p + 1 < end` where `c` stands twice in a row.
pub open spec fn find_double(s: Seq<char>, c: char, i: int, end: int) -> Option<int>
    decreases end - i,
{
    if i + 1 >= end {
        None
    } else if s[i] == c && s[i + 1] == c {
        Some(i)
    } else {
        find_double(s, c, i + 1, end)
    }
}

/// The last position `p` at or after `lo` with `p + 1 < hi` where `c` stands twice in a row,
/// searching down from `hi`.
pub open spec fn rfind_double(s: Seq<char>, c: char, lo: int, hi: int) -> Option<int>
    decreases hi - lo,
{
    if hi - 1 <= lo {
        None
    } else if s[hi - 2] == c && s[hi - 1] == c {
        Some(hi - 2)
    } else {
        rfind_double(s, c, lo, hi - 1)
    }
}

/// The first comma at or after `i` and before `end`, or `end`.
pub open spec fn next_comma(s: Seq<char>, i: int, end: int) -> int
    decreases end - i,
{
    if i >= end {
        end
    } else if s[i] == ',' {
        i
    } else {
        next_comma(s, i + 1, end)
    }
}

/// The words of `s[i..end]`: its maximal runs of characters that are not white space, as
/// position ranges.
pub open spec fn words(s: Seq<char>, i: int, end: int) -> Seq<(int, int)>
    decreases end - i,
{
    let a = skip_white(s, i, end);
    if i >= end || a >= end {
        Seq::empty()
    } else {
        let b = skip_word(s, a, end);
        if b <= i || b > end {
            Seq::empty()
        } else {
            seq![(a, b)] + words(s, b, end)
        }
    }
}

/// Why the text of a polygon is malformed.
#[derive(Debug, Clone, Copy, PartialEq, Eq, Structural)]
pub enum WktError {
    NotPolygon,
    MissingOpen,
    MissingClose,
    InvalidFormat,
    CoordinateArity,
}

impl WktError {
    /// The sentence shown to a user.
    pub open spec fn message(self) -> Seq<char> {
        match self {
            WktError::NotPolygon => "WKT string must start with POLYGON"@,
            WktError::MissingOpen => "Missing opening (("@,
            WktError::MissingClose => "Missing closing ))"@,
            WktError::InvalidFormat => "Invalid WKT format"@,
            WktError::CoordinateArity => "Each coordinate must have exactly 2 values"@,
        }
    }

    /// The sentence shown to a user.
    pub fn as_str(&self) -> (s: &'static str)
        ensures
            s@ == self.message(),
    {
        match self {
            WktError::NotPolygon => "WKT string must start with POLYGON",
            WktError::MissingOpen => "Missing opening ((",
            WktError::MissingClose => "Missing closing ))",
            WktError::InvalidFormat => "Invalid WKT format",
            WktError::CoordinateArity => "Each coordinate must have exactly 2 values",
        }
    }
}

/// Where the coordinate list of a polygon text stands, as the range between `((` and `))`
/// once surrounding white space is dropped; or why there is none.
pub open spec fn coordinate_list(s: Seq<char>) -> Result<(int, int), WktError> {
    let lo = skip_white(s, 0, s.len() as int);
    let hi = trim_end(s, lo, s.len() as int);
    if !(hi - lo >= 7 && s.subrange(lo, lo + 7) == "POLYGON"@) {
        Err(WktError::NotPolygon)
    } else {
        match find_double(s, '(', lo, hi) {
            None => Err(WktError::MissingOpen),
            Some(open) => match rfind_double(s, ')', lo, hi) {
                None => Err(WktError::MissingClose),
                Some(close) => if open >= close {
                    Err(WktError::InvalidFormat)
                } else {
                    Ok((open + 2, close))
                },
            },
        }
    }
}

/// The coordinates of the list `s[i..end]`, from the comma-separated piece starting at `i`
/// on: each piece with exactly two words gives its two words; the first piece with another
/// number of words ends the list with `CoordinateArity`.
pub open spec fn coordinates_from(s: Seq<char>, i: int, end: int) -> (Seq<(int, int, int, int)>, Option<WktError>)
    decreases end - i + 1,
{
    if i > end {
        (Seq::empty(), None)
    } else {
        let k = next_comma(s, i, end);
        let w = words(s, i, k);
        if k < i || w.len() != 2 {
            (Seq::empty(), Some(WktError::CoordinateArity))
        } else if k >= end {
            (seq![(w[0].0, w[0].1, w[1].0, w[1].1)], None)
        } else {
            let rest = coordinates_from(s, k + 1, end);
            (seq![(w[0].0, w[0].1, w[1].0, w[1].1)] + rest.0, rest.1)
        }
    }
}

/// The coordinate texts of a polygon text, as position ranges, and the error that ends them.
pub open spec fn polygon_coordinates(s: Seq<char>) -> (Seq<(int, int, int, int)>, Option<WktError>) {
    match coordinate_list(s) {
        Err(e) => (Seq::empty(), Some(e)),
        Ok((a, b)) => coordinates_from(s, a, b),
    }
}

/// The coordinate texts of a polygon, in order, and the error met after them, if any.
#[derive(Debug, Clone)]
pub struct WktCoordinates {
    pub pairs: Vec<(String, String)>,
    pub error: Option<WktError>,
}

proof fn lemma_skip_white_range(s: Seq<char>, i: int, end: int)
    requires
        i <= end,
    ensures
        i <= skip_white(s, i, end) <= end,
    decreases end - i,
{
    if i < end && is_white(s[i]) {
        lemma_skip_white_range(s, i + 1, end);
    }
}

proof fn lemma_skip_word_range(s: Seq<char>, i: int, end: int)
    requires
        i <= end,
    ensures
        i <= skip_word(s, i, end) <= end,
    decreases end - i,
{
    if i < end && !is_white(s[i]) {
        lemma_skip_word_range(s, i + 1, end);
    }
}

proof fn lemma_find_double_range(s: Seq<char>, c: char, i: int, end: int)
    ensures
        find_double(s, c, i, end) matches Some(p) ==> i <= p && p + 1 < end && s[p] == c && s[p + 1] == c,
    decreases end - i,
{
    if i + 1 < end && !(s[i] == c && s[i + 1] == c) {
        lemma_find_double_range(s, c, i + 1, end);
    }
}

proof fn lemma_rfind_double_range(s: Seq<char>, c: char, lo: int, hi: int)
    ensures
        rfind_double(s, c, lo, hi) matches Some(p) ==> lo <= p && p + 1 < hi && s[p] == c && s[p + 1] == c,
    decreases hi - lo,
{
    if hi - 1 > lo && !(s[hi - 2] == c && s[hi - 1] == c) {
        lemma_rfind_double_range(s, c, lo, hi - 1);
    }
}

/// The characters of a text.
fn chars_of(text: &str) -> (cs: Vec<char>)
    ensures
        cs@ == text@,
{
    let n = text.unicode_len();
    let mut cs: Vec<char> = Vec::new();
    let mut i: usize = 0;
    while i < n
        invariant
            n == text@.len(),
            i <= n,
            cs@ == text@.subrange(0, i as int),
        decreases n - i,
    {
        cs.push(text.get_char(i));
        i = i + 1;
        assert(cs@ =~= text@.subrange(0, i as int));
    }
    cs
}

/// The words of `cs[i..end]`, scanning from `i`.
fn scan_words(cs: &Vec<char>, i: usize, end: usize) -> (w: Vec<(usize, usize)>)
    requires
        i <= end <= cs@.len(),
    ensures
        w@.len() == words(cs@, i as int, end as int).len(),
        forall|j: int|
            0 <= j < w@.len() ==> (#[trigger] w@[j]).0 as int == words(cs@, i as int, end as int)[j].0
                && w@[j].1 as int == words(cs@, i as int, end as int)[j].1,
        forall|j: int| 0 <= j < w@.len() ==> (#[trigger] w@[j]).0 <= w@[j].1 <= end,
    decreases end - i,
{
    let mut a = i;
    while a < end && is_white_char(cs[a])
        invariant
            i <= a <= end <= cs@.len(),
            skip_white(cs@, i as int, end as int) == skip_white(cs@, a as int, end as int),
        decreases end - a,
    {
        a = a + 1;
    }
    if i >= end || a >= end {
        return Vec::new();
    }
    let mut b = a;
    while b < end && !is_white_char(cs[b])
        invariant
            a <= b <= end <= cs@.len(),
            skip_word(cs@, a as int, end as int) == skip_word(cs@, b as int, end as int),
        decreases end - b,
    {
        b = b + 1;
    }
    proof {
        lemma_skip_white_range(cs@, i as int, end as int);
        lemma_skip_word_range(cs@, a as int, end as int);
    }
    let rest = scan_words(cs, b, end);
    let mut w: Vec<(usize, usize)> = Vec::new();
    w.push((a, b));
    let mut j: usize = 0;
    while j < rest.len()
        invariant
            w@.len() == j + 1,
            w@[0] == (a, b),
            j <= rest@.len(),
            forall|k: int| 0 <= k < j ==> #[trigger] w@[k + 1] == rest@[k],
        decreases rest@.len() - j,
    {
        w.push(rest[j]);
        j = j + 1;
    }
    proof {
        let ws = words(cs@, i as int, end as int);
        let rs = words(cs@, b as int, end as int);
        assert(ws == seq![(a as int, b as int)] + rs);
        assert forall|k: int| 0 <= k < w@.len() implies (#[trigger] w@[k]).0 as int == ws[k].0
            && w@[k].1 as int == ws[k].1 by {
            if k > 0 {
                assert(w@[(k - 1) + 1] == rest@[k - 1]);
            }
        }
        assert forall|k: int| 0 <= k < w@.len() implies (#[trigger] w@[k]).0 <= w@[k].1 <= end by {
            if k > 0 {
                assert(w@[(k - 1) + 1] == rest@[k - 1]);
            }
        }
    }
    w
}

fn skip_white_from(cs: &Vec<char>, i: usize, end: usize) -> (r: usize)
    requires
        i <= end <= cs@.len(),
    ensures
        r as int == skip_white(cs@, i as int, end as int),
        i <= r <= end,
{
    let mut a = i;
    while a < end && is_white_char(cs[a])
        invariant
            i <= a <= end <= cs@.len(),
            skip_white(cs@, i as int, end as int) == skip_white(cs@, a as int, end as int),
        decreases end - a,
    {
        a = a + 1;
    }
    a
}

fn trim_end_from(cs: &Vec<char>, lo: usize, hi: usize) -> (r: usize)
    requires
        lo <= hi <= cs@.len(),
    ensures
        r as int == trim_end(cs@, lo as int, hi as int),
        lo <= r <= hi,
{
    let mut h = hi;
    while h > lo && is_white_char(cs[h - 1])
        invariant
            lo <= h <= hi <= cs@.len(),
            trim_end(cs@, lo as int, hi as int) == trim_end(cs@, lo as int, h as int),
        decreases h - lo,
    {
        h = h - 1;
    }
    h
}

fn find_double_from(cs: &Vec<char>, c: char, i: usize, end: usize) -> (r: Option<usize>)
    requires
        i <= end <= cs@.len(),
    ensures
        match r {
            Some(p) => find_double(cs@, c, i as int, end as int) == Some(p as int),
            None => find_double(cs@, c, i as int, end as int) is None,
        },
{
    let mut p = i;
    while end - p > 1
        invariant
            i <= p <= end <= cs@.len(),
            find_double(cs@, c, i as int, end as int) == find_double(cs@, c, p as int, end as int),
        decreases end - p,
    {
        if cs[p] == c && cs[p + 1] == c {
            return Some(p);
        }
        p = p + 1;
    }
    None
}

fn rfind_double_from(cs: &Vec<char>, c: char, lo: usize, hi: usize) -> (r: Option<usize>)
    requires
        lo <= hi <= cs@.len(),
    ensures
        match r {
            Some(p) => rfind_double(cs@, c, lo as int, hi as int) == Some(p as int),
            None => rfind_double(cs@, c, lo as int, hi as int) is None,
        },
{
    let mut h = hi;
    while h - lo > 1
        invariant
            lo <= h <= hi <= cs@.len(),
            rfind_double(cs@, c, lo as int, hi as int) == rfind_double(cs@, c, lo as int, h as int),
        decreases h - lo,
    {
        if cs[h - 2] == c && cs[h - 1] == c {
            return Some(h - 2);
        }
        h = h - 1;
    }
    None
}

fn next_comma_from(cs: &Vec<char>, i: usize, end: usize) -> (r: usize)
    requires
        i <= end <= cs@.len(),
    ensures
        r as int == next_comma(cs@, i as int, end as int),
        i <= r <= end,
{
    let mut k = i;
    while k < end && cs[k] != ','
        invariant
            i <= k <= end <= cs@.len(),
            next_comma(cs@, i as int, end as int) == next_comma(cs@, k as int, end as int),
        decreases end - k,
    {
        k = k + 1;
    }
    k
}

fn starts_with_polygon(cs: &Vec<char>, lo: usize, hi: usize) -> (b: bool)
    requires
        lo <= hi <= cs@.len(),
    ensures
        b == (hi - lo >= 7 && cs@.subrange(lo as int, lo + 7) == "POLYGON"@),
{
    proof {
        reveal_strlit("POLYGON");
    }
    if hi - lo < 7 {
        return false;
    }
    let b = cs[lo] == 'P' && cs[lo + 1] == 'O' && cs[lo + 2] == 'L' && cs[lo + 3] == 'Y' && cs[lo
        + 4] == 'G' && cs[lo + 5] == 'O' && cs[lo + 6] == 'N';
    proof {
        if b {
            assert(cs@.subrange(lo as int, lo + 7) =~= "POLYGON"@);
        } else {
            if cs@.subrange(lo as int, lo + 7) == "POLYGON"@ {
                assert(cs@.subrange(lo as int, lo + 7)[0] == 'P');
                assert(cs@.subrange(lo as int, lo + 7)[1] == 'O');
                assert(cs@.subrange(lo as int, lo + 7)[2] == 'L');
                assert(cs@.subrange(lo as int, lo + 7)[3] == 'Y');
                assert(cs@.subrange(lo as int, lo + 7)[4] == 'G');
                assert(cs@.subrange(lo as int, lo + 7)[5] == 'O');
                assert(cs@.subrange(lo as int, lo + 7)[6] == 'N');
            }
        }
    }
    b
}

/// Splits a polygon text into the texts of its coordinates: drops surrounding white space,
/// requires the "POLYGON" keyword, takes the text between the first "((" and the last "))",
/// splits it at commas, and takes the two words of each piece. The first piece without
/// exactly two words ends the list with `CoordinateArity`; a text without the keyword or the
/// brackets gives no coordinates and the matching error.
pub fn polygon_coordinate_texts(text: &str) -> (r: WktCoordinates)
    ensures
        r.pairs@.len() == polygon_coordinates(text@).0.len(),
        forall|j: int|
            0 <= j < r.pairs@.len() ==> {
                let q = polygon_coordinates(text@).0[j];
                &&& (#[trigger] r.pairs@[j]).0@ == text@.subrange(q.0, q.1)
                &&& r.pairs@[j].1@ == text@.subrange(q.2, q.3)
            },
        r.error == polygon_coordinates(text@).1,
{
    let cs = chars_of(text);
    let n = cs.len();
    let lo = skip_white_from(&cs, 0, n);
    let hi = trim_end_from(&cs, lo, n);
    if !starts_with_polygon(&cs, lo, hi) {
        return WktCoordinates { pairs: Vec::new(), error: Some(WktError::NotPolygon) };
    }
    let open = match find_double_from(&cs, '(', lo, hi) {
        Some(p) => p,
        None => return WktCoordinates { pairs: Vec::new(), error: Some(WktError::MissingOpen) },
    };
    let close = match rfind_double_from(&cs, ')', lo, hi) {
        Some(p) => p,
        None => return WktCoordinates { pairs: Vec::new(), error: Some(WktError::MissingClose) },
    };
    if open >= close {
        return WktCoordinates { pairs: Vec::new(), error: Some(WktError::InvalidFormat) };
    }
    proof {
        lemma_find_double_range(cs@, '(', lo as int, hi as int);
        lemma_rfind_double_range(cs@, ')', lo as int, hi as int);
    }
    let start = open + 2;
    let end = close;
    let ghost whole = polygon_coordinates(text@);
    assert(coordinate_list(text@) == Ok::<(int, int), WktError>((start as int, end as int)));
    let mut pairs: Vec<(String, String)> = Vec::new();
    let ghost mut spans: Seq<(int, int, int, int)> = Seq::empty();
    let mut i = start;
    loop
        invariant
            cs@ == text@,
            n == cs@.len(),
            start <= i <= end + 1,
            end <= n,
            start <= end,
            whole == polygon_coordinates(text@),
            whole.0 == spans + coordinates_from(cs@, i as int, end as int).0,
            whole.1 == coordinates_from(cs@, i as int, end as int).1,
            pairs@.len() == spans.len(),
            forall|j: int|
                0 <= j < pairs@.len() ==> (#[trigger] pairs@[j]).0@ == text@.subrange(spans[j].0, spans[j].1)
                    && pairs@[j].1@ == text@.subrange(spans[j].2, spans[j].3),
            i <= end,
        decreases end + 1 - i,
    {
        let k = next_comma_from(&cs, i, end);
        let w = scan_words(&cs, i, k);
        let ghost step = coordinates_from(cs@, i as int, end as int);
        if w.len() != 2 {
            assert(step.0 == Seq::<(int, int, int, int)>::empty());
            assert(spans + step.0 == spans);
            return WktCoordinates { pairs, error: Some(WktError::CoordinateArity) };
        }
        let (a0, b0) = w[0];
        let (a1, b1) = w[1];
        proof {
            assert(w@[0].0 as int == words(cs@, i as int, k as int)[0].0);
            assert(w@[1].0 as int == words(cs@, i as int, k as int)[1].0);
        }
        let x = String::from_str(text.substring_char(a0, b0));
        let y = String::from_str(text.substring_char(a1, b1));
        let ghost span = (a0 as int, b0 as int, a1 as int, b1 as int);
        pairs.push((x, y));
        proof {
            spans = spans.push(span);
            assert forall|j: int| 0 <= j < pairs@.len() implies (#[trigger] pairs@[j]).0@ == text@.subrange(
                spans[j].0,
                spans[j].1,
            ) && pairs@[j].1@ == text@.subrange(spans[j].2, spans[j].3) by {
            }
        }
        if k >= end {
            assert(step.0 == seq![span]);
            assert(whole.0 == spans);
            return WktCoordinates { pairs, error: None };
        }
        proof {
            let rest = coordinates_from(cs@, k + 1, end as int);
            assert(step.0 == seq![span] + rest.0);
            assert(spans.drop_last() + (seq![span] + rest.0) == spans + rest.0);
        }
        i = k + 1;
    }
}

} // verus!
