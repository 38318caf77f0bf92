//! Page-count clamping and page-address generation.
//!
//! The requested page count is read from the `maxpage` query value,
//! defaulting to one when absent or unparsable and clamped into `[1, 10]`.
//! The addresses are the site's listing endpoint and its `page/<n>/`
//! variants, each carrying the fixed `?s=epub` query marker.

use vstd::prelude::*;
use crate::strutil::push_char;

verus! {

/// The hard cap on the number of pages fetched for one request.
pub const MAX_PAGE_COUNT: usize = 10;

/// `c` is an ASCII decimal digit.
pub open spec fn is_digit(c: char) -> bool {
    48 <= c as u32 <= 57
}

/// The value of an ASCII decimal digit.
pub open spec fn digit_val(c: char) -> int {
    c as u32 - 48
}

/// The value of a digit string, most significant first.
pub open spec fn digits_val(s: Seq<char>) -> int
    decreases s.len(),
{
    if s.len() == 0 {
        0
    } else {
        digits_val(s.drop_last()) * 10 + digit_val(s.last())
    }
}

/// Every character of `s` is a decimal digit.
pub open spec fn all_digits(s: Seq<char>) -> bool {
    forall|i: int| 0 <= i < s.len() ==> is_digit(#[trigger] s[i])
}

/// A digit string's value is never negative.
pub proof fn lemma_digits_val_nonneg(s: Seq<char>)
    requires
        all_digits(s),
    ensures
        digits_val(s) >= 0,
    decreases s.len(),
{
    if s.len() > 0 {
        assert(all_digits(s.drop_last()));
        lemma_digits_val_nonneg(s.drop_last());
    }
}

/// The value an unsigned decimal parse yields: an optional leading `+`,
/// then one or more digits, rejected when the value exceeds `usize::MAX`.
pub open spec fn spec_parse_usize(s: Seq<char>) -> Option<int> {
    let body = if s.len() >= 1 && s[0] == '+' {
        s.drop_first()
    } else {
        s
    };
    if body.len() == 0 || !all_digits(body) {
        None
    } else if digits_val(body) > usize::MAX {
        None
    } else {
        Some(digits_val(body))
    }
}

/// The page count a raw `maxpage` query value yields: one when the value
/// is absent or does not parse, else the value clamped into `[1, 10]`.
pub open spec fn spec_effective_pages(raw: Option<Seq<char>>) -> int {
    match raw {
        Option::None => 1,
        Option::Some(s) => match spec_parse_usize(s) {
            Option::None => 1,
            Option::Some(v) => if v < 1 {
                1
            } else if v > MAX_PAGE_COUNT as int {
                MAX_PAGE_COUNT as int
            } else {
                v
            },
        },
    }
}

/// Read the effective page count from the raw `maxpage` query value.
#[verifier::loop_isolation(false)]
pub fn parse_max_pages(raw: Option<&str>) -> (n: usize)
    ensures
        n as int == spec_effective_pages(match raw {
            Option::None => Option::None,
            Option::Some(s) => Option::Some(s@),
        }),
        1 <= n <= MAX_PAGE_COUNT,
{
    let s = match raw {
        Option::None => { return 1; },
        Option::Some(s) => s,
    };
    let len = s.unicode_len();
    let start: usize = if len >= 1 && s.get_char(0) == '+' {
        1
    } else {
        0
    };
    let ghost body = if s@.len() >= 1 && s@[0] == '+' {
        s@.drop_first()
    } else {
        s@
    };
    proof {
        assert(body =~= s@.subrange(start as int, len as int));
    }
    if start == len {
        return 1;
    }
    let mut acc: usize = 0;
    let mut overflow = false;
    let mut i: usize = start;
    while i < len
        invariant
            start <= i <= len,
            len == s@.len(),
            start <= 1,
            body == s@.subrange(start as int, len as int),
            body == (if s@.len() >= 1 && s@[0] == '+' {
                s@.drop_first()
            } else {
                s@
            }),
            all_digits(s@.subrange(start as int, i as int)),
            !overflow ==> acc as int == digits_val(s@.subrange(start as int, i as int)),
            overflow ==> digits_val(s@.subrange(start as int, i as int)) > usize::MAX,
        decreases len - i,
    {
        let c = s.get_char(i);
        let cu: u32 = c as u32;
        if cu < 48 || cu > 57 {
            proof {
                let idx = i - start;
                assert(body[idx] == s@[i as int]);
                assert(!is_digit(body[idx]));
                assert(!all_digits(body));
                assert(spec_parse_usize(s@) is None);
            }
            return 1;
        }
        let d: usize = (cu - 48) as usize;
        let ghost pre = s@.subrange(start as int, i as int);
        let ghost cur = s@.subrange(start as int, i + 1);
        proof {
            assert(cur.drop_last() =~= pre);
            assert(cur.last() == s@[i as int]);
            assert(digits_val(cur) == digits_val(pre) * 10 + d);
            lemma_digits_val_nonneg(pre);
        }
        if !overflow {
            match acc.checked_mul(10) {
                Option::Some(t) => match t.checked_add(d) {
                    Option::Some(v) => { acc = v; },
                    Option::None => { overflow = true; },
                },
                Option::None => { overflow = true; },
            }
        } else {
            proof {
                assert(digits_val(pre) * 10 >= digits_val(pre)) by (nonlinear_arith)
                    requires digits_val(pre) >= 0;
            }
        }
        i += 1;
    }
    proof {
        assert(s@.subrange(start as int, len as int) =~= body);
    }
    if overflow {
        return 1;
    }
    if acc < 1 {
        1
    } else if acc > MAX_PAGE_COUNT {
        MAX_PAGE_COUNT
    } else {
        acc
    }
}

/// The site's root listing address.
pub open spec fn spec_base_url() -> Seq<char> {
    "https://jnovels.com/?s=epub"@
}

/// The digit character for a page ordinal in `[1, 9]`.
pub open spec fn spec_digit_char(i: int) -> char {
    if i == 1 {
        '1'
    } else if i == 2 {
        '2'
    } else if i == 3 {
        '3'
    } else if i == 4 {
        '4'
    } else if i == 5 {
        '5'
    } else if i == 6 {
        '6'
    } else if i == 7 {
        '7'
    } else if i == 8 {
        '8'
    } else {
        '9'
    }
}

/// The address of page `i`, for ordinals in `[1, 9]`.
pub open spec fn spec_page_url(i: int) -> Seq<char> {
    "https://jnovels.com/page/"@ + seq![spec_digit_char(i)] + "/?s=epub"@
}

/// Produce the `k` page addresses in fetch order: the root listing
/// first, then the `page/<n>/` variants for `n` from one upward.
pub fn page_urls(k: usize) -> (r: Vec<String>)
    requires
        1 <= k <= MAX_PAGE_COUNT,
    ensures
        r.deep_view().len() == k,
        r.deep_view()[0] == spec_base_url(),
        forall|i: int| 1 <= i < k ==> r.deep_view()[i] == spec_page_url(i),
{
    let mut r: Vec<String> = Vec::new();
    r.push(String::from_str("https://jnovels.com/?s=epub"));
    let mut i: usize = 1;
    while i < k
        invariant
            1 <= i <= k <= MAX_PAGE_COUNT,
            r.deep_view().len() == i,
            r.deep_view()[0] == spec_base_url(),
            forall|j: int| 1 <= j < i ==> r.deep_view()[j] == spec_page_url(j),
        decreases k - i,
    {
        let c: char = match i {
            1 => '1',
            2 => '2',
            3 => '3',
            4 => '4',
            5 => '5',
            6 => '6',
            7 => '7',
            8 => '8',
            _ => '9',
        };
        assert(c == spec_digit_char(i as int));
        let mut u = String::from_str("https://jnovels.com/page/");
        push_char(&mut u, c);
        u.append("/?s=epub");
        assert(u@ == spec_page_url(i as int));
        r.push(u);
        i += 1;
    }
    r
}

} // verus!
