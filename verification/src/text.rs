//! Character-sequence utilities: rendering a number in decimal and locating
//! the first occurrence of one string inside another.

use vstd::prelude::*;

verus! {

/// The character for a single decimal digit.
pub open spec fn digit_char(d: int) -> char {
    if d == 0 {
        '0'
    } else if d == 1 {
        '1'
    } else if d == 2 {
        '2'
    } else if d == 3 {
        '3'
    } else if d == 4 {
        '4'
    } else if d == 5 {
        '5'
    } else if d == 6 {
        '6'
    } else if d == 7 {
        '7'
    } else if d == 8 {
        '8'
    } else {
        '9'
    }
}

/// The decimal rendering of a non-negative number, most significant digit
/// first, with no leading zeros (except for zero itself).
pub open spec fn dec_str(n: int) -> Seq<char>
    decreases n,
{
    if n < 10 {
        seq![digit_char(n)]
    } else {
        dec_str(n / 10).push(digit_char(n % 10))
    }
}

/// Every character of a decimal rendering is a digit.
pub proof fn lemma_dec_str_digits(n: int)
    ensures
        forall|k: int| 0 <= k < dec_str(n).len() ==> '0' <= #[trigger] dec_str(n)[k] <= '9',
    decreases n,
{
    if n < 10 {
        assert forall|k: int| 0 <= k < dec_str(n).len() implies '0' <= #[trigger] dec_str(
            n,
        )[k] <= '9' by {
            assert(dec_str(n)[k] == digit_char(n));
        }
    } else {
        lemma_dec_str_digits(n / 10);
        assert forall|k: int| 0 <= k < dec_str(n).len() implies '0' <= #[trigger] dec_str(
            n,
        )[k] <= '9' by {
            if k < dec_str(n / 10).len() {
                assert(dec_str(n)[k] == dec_str(n / 10)[k]);
            } else {
                assert(dec_str(n)[k] == digit_char(n % 10));
            }
        }
    }
}

fn digit_literal(d: usize) -> (r: &'static str)
    requires
        d < 10,
    ensures
        r@ == seq![digit_char(d as int)],
{
    proof {
        reveal_strlit("0");
        reveal_strlit("1");
        reveal_strlit("2");
        reveal_strlit("3");
        reveal_strlit("4");
        reveal_strlit("5");
        reveal_strlit("6");
        reveal_strlit("7");
        reveal_strlit("8");
        reveal_strlit("9");
    }
    let r: &'static str = if d == 0 {
        "0"
    } else if d == 1 {
        "1"
    } else if d == 2 {
        "2"
    } else if d == 3 {
        "3"
    } else if d == 4 {
        "4"
    } else if d == 5 {
        "5"
    } else if d == 6 {
        "6"
    } else if d == 7 {
        "7"
    } else if d == 8 {
        "8"
    } else {
        "9"
    };
    proof {
        assert(r@ =~= seq![digit_char(d as int)]);
    }
    r
}

/// Renders a number in decimal.
pub fn usize_to_string(n: usize) -> (r: String)
    ensures
        r@ == dec_str(n as int),
    decreases n,
{
    if n < 10 {
        String::from_str(digit_literal(n))
    } else {
        let q: usize = n / 10;
        let rest = usize_to_string(q);
        let r = rest.concat(digit_literal(n % 10));
        proof {
            assert(r@ =~= dec_str(q as int).push(digit_char(n as int % 10)));
        }
        r
    }
}

/// `needle` stands in `hay` at position `i`.
pub open spec fn occurs_at(hay: Seq<char>, needle: Seq<char>, i: int) -> bool {
    0 <= i && i + needle.len() <= hay.len() && hay.subrange(i, i + needle.len() as int)
        == needle
}

/// The position of the first occurrence of `needle` at or after `from`.
pub open spec fn first_occ_from(hay: Seq<char>, needle: Seq<char>, from: int) -> Option<int>
    decreases hay.len() + 1 - from,
{
    if from < 0 || from + needle.len() > hay.len() {
        None
    } else if occurs_at(hay, needle, from) {
        Some(from)
    } else {
        first_occ_from(hay, needle, from + 1)
    }
}

/// Skipping over positions with no occurrence does not change the first
/// occurrence found.
proof fn lemma_first_occ_skip(hay: Seq<char>, needle: Seq<char>, a: int, b: int)
    requires
        0 <= a <= b,
        forall|j: int| a <= j < b ==> !occurs_at(hay, needle, j),
    ensures
        first_occ_from(hay, needle, a) == first_occ_from(hay, needle, b),
    decreases b - a,
{
    if a < b {
        lemma_first_occ_skip(hay, needle, a + 1, b);
    }
}

/// What a first occurrence means: `needle` stands there, and nowhere earlier
/// at or after `from`.
pub proof fn lemma_first_occ_props(hay: Seq<char>, needle: Seq<char>, from: int)
    requires
        first_occ_from(hay, needle, from) is Some,
    ensures
        occurs_at(hay, needle, first_occ_from(hay, needle, from).unwrap()),
        from <= first_occ_from(hay, needle, from).unwrap(),
        forall|j: int|
            from <= j < first_occ_from(hay, needle, from).unwrap() ==> !occurs_at(
                hay,
                needle,
                j,
            ),
    decreases hay.len() + 1 - from,
{
    if !(from < 0 || from + needle.len() > hay.len()) && !occurs_at(hay, needle, from) {
        lemma_first_occ_props(hay, needle, from + 1);
    }
}

/// If `needle` occurs anywhere, a first occurrence exists.
pub proof fn lemma_first_occ_exists(hay: Seq<char>, needle: Seq<char>, w: int)
    requires
        occurs_at(hay, needle, w),
    ensures
        first_occ_from(hay, needle, 0) is Some,
{
    lemma_first_occ_down(hay, needle, w, w);
    assert(first_occ_from(hay, needle, w - w) is Some);
}

proof fn lemma_first_occ_down(hay: Seq<char>, needle: Seq<char>, w: int, j: int)
    requires
        occurs_at(hay, needle, w),
        0 <= j <= w,
    ensures
        first_occ_from(hay, needle, w - j) is Some,
    decreases j,
{
    if j == 0 {
        assert(first_occ_from(hay, needle, w) is Some);
    } else {
        lemma_first_occ_down(hay, needle, w, j - 1);
        let a = w - j;
        if !(a < 0 || a + needle.len() > hay.len()) && !occurs_at(hay, needle, a) {
            assert(first_occ_from(hay, needle, a) == first_occ_from(hay, needle, a + 1));
        }
    }
}

/// Whether `needle` stands in `hay` at position `at`, checked character by
/// character.
fn matches_at(hay: &str, needle: &str, at: usize, hay_len: usize, needle_len: usize) -> (b:
    bool)
    requires
        hay_len == hay@.len(),
        needle_len == needle@.len(),
        at + needle_len <= hay_len,
    ensures
        b == occurs_at(hay@, needle@, at as int),
{
    let mut j: usize = 0;
    while j < needle_len
        invariant
            0 <= j <= needle_len,
            hay_len == hay@.len(),
            needle_len == needle@.len(),
            at + needle_len <= hay_len,
            forall|t: int| 0 <= t < j ==> hay@[at + t] == needle@[t],
        decreases needle_len - j,
    {
        if hay.get_char(at + j) != needle.get_char(j) {
            proof {
                assert(hay@.subrange(at as int, at + needle@.len()) != needle@) by {
                    assert(hay@.subrange(at as int, at + needle@.len())[j as int]
                        == hay@[at + j]);
                }
            }
            return false;
        }
        j += 1;
    }
    proof {
        assert(hay@.subrange(at as int, at + needle@.len()) =~= needle@);
    }
    true
}

/// The position of the first occurrence of `needle` within `hay`, if any.
pub fn find_first(hay: &str, needle: &str) -> (r: Option<usize>)
    ensures
        r is Some <==> first_occ_from(hay@, needle@, 0) is Some,
        r is Some ==> Some(r.unwrap() as int) == first_occ_from(hay@, needle@, 0),
{
    let hay_len: usize = hay.unicode_len();
    let needle_len: usize = needle.unicode_len();
    if needle_len > hay_len {
        return None;
    }
    let last: usize = hay_len - needle_len;
    let mut i: usize = 0;
    loop
        invariant
            0 <= i <= last,
            last == hay_len - needle_len,
            hay_len == hay@.len(),
            needle_len == needle@.len(),
            needle_len <= hay_len,
            forall|j: int| 0 <= j < i ==> !occurs_at(hay@, needle@, j),
        decreases last - i,
    {
        if matches_at(hay, needle, i, hay_len, needle_len) {
            proof {
                lemma_first_occ_skip(hay@, needle@, 0, i as int);
            }
            return Some(i);
        }
        if i == last {
            proof {
                lemma_first_occ_skip(hay@, needle@, 0, i + 1);
            }
            return None;
        }
        i += 1;
    }
}

} // verus!
