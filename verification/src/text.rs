//! Text helpers: whitespace trimming of the draft and decimal rendering of
//! counters.

use vstd::prelude::*;
use vstd::string::StrSliceExecFns;
use vstd::string::StringExecFns;

verus! {

/// Whether a character counts as whitespace, as `char::is_whitespace` decides
/// it (the Unicode `White_Space` property, a function of the character alone).
pub uninterp spec fn is_space(c: char) -> bool;

/// Relies on `char::is_whitespace`: true exactly for characters with the
/// Unicode `White_Space` property, depending on the character alone.
pub assume_specification[ char::is_whitespace ](c: char) -> (r: bool)
    ensures
        r == is_space(c),
;

/// The sequence with its leading whitespace removed.
pub open spec fn trim_front(s: Seq<char>) -> Seq<char>
    decreases s.len(),
{
    if s.len() > 0 && is_space(s[0]) {
        trim_front(s.drop_first())
    } else {
        s
    }
}

/// The sequence with its trailing whitespace removed.
pub open spec fn trim_back(s: Seq<char>) -> Seq<char>
    decreases s.len(),
{
    if s.len() > 0 && is_space(s.last()) {
        trim_back(s.drop_last())
    } else {
        s
    }
}

/// The sequence with leading and trailing whitespace removed, as `str::trim`
/// computes it.
pub open spec fn trim_spec(s: Seq<char>) -> Seq<char> {
    trim_back(trim_front(s))
}

/// Whether a sequence carries no leading or trailing whitespace.
pub open spec fn is_trimmed(s: Seq<char>) -> bool {
    &&& s.len() > 0 ==> !is_space(s[0])
    &&& s.len() > 0 ==> !is_space(s.last())
}

proof fn lemma_trim_front_head(s: Seq<char>)
    ensures
        trim_front(s).len() > 0 ==> !is_space(trim_front(s)[0]),
    decreases s.len(),
{
    if s.len() > 0 && is_space(s[0]) {
        lemma_trim_front_head(s.drop_first());
    }
}

proof fn lemma_trim_back_props(s: Seq<char>)
    ensures
        trim_back(s).len() > 0 ==> !is_space(trim_back(s).last()),
        trim_back(s).len() > 0 ==> trim_back(s)[0] == s[0],
    decreases s.len(),
{
    if s.len() > 0 && is_space(s.last()) {
        lemma_trim_back_props(s.drop_last());
    }
}

/// What trimming produces carries no whitespace at either end.
pub proof fn lemma_trim_spec_trimmed(s: Seq<char>)
    ensures
        is_trimmed(trim_spec(s)),
{
    lemma_trim_front_head(s);
    lemma_trim_back_props(trim_front(s));
}

proof fn lemma_trim_front_skip(s: Seq<char>, i: int)
    requires
        0 <= i <= s.len(),
        forall|j: int| 0 <= j < i ==> is_space(s[j]),
        i < s.len() ==> !is_space(s[i]),
    ensures
        trim_front(s) =~= s.subrange(i, s.len() as int),
    decreases i,
{
    if i == 0 {
    } else {
        assert(is_space(s[0]));
        let t = s.drop_first();
        lemma_trim_front_skip(t, i - 1);
        assert(t.subrange(i - 1, t.len() as int) =~= s.subrange(i, s.len() as int));
    }
}

proof fn lemma_trim_back_take(s: Seq<char>, e: int)
    requires
        0 <= e <= s.len(),
        forall|k: int| e <= k < s.len() ==> is_space(s[k]),
        e > 0 ==> !is_space(s[e - 1]),
    ensures
        trim_back(s) =~= s.subrange(0, e),
    decreases s.len(),
{
    if e == s.len() {
        if s.len() > 0 {
            assert(!is_space(s.last()));
        }
    } else {
        assert(is_space(s.last()));
        let t = s.drop_last();
        lemma_trim_back_take(t, e);
        assert(t.subrange(0, e) =~= s.subrange(0, e));
    }
}

fn scan_front(s: &str, i: usize, len: usize) -> (r: usize)
    requires
        len == s@.len(),
        i <= len,
        forall|j: int| 0 <= j < i ==> is_space(s@[j]),
    ensures
        i <= r <= len,
        forall|j: int| 0 <= j < r ==> is_space(s@[j]),
        r < len ==> !is_space(s@[r as int]),
    decreases len - i,
{
    if i < len {
        let c = s.get_char(i);
        if c.is_whitespace() {
            scan_front(s, i + 1, len)
        } else {
            i
        }
    } else {
        i
    }
}

fn scan_back(s: &str, b: usize, j: usize) -> (r: usize)
    requires
        b < j <= s@.len(),
        !is_space(s@[b as int]),
        forall|k: int| j <= k < s@.len() ==> is_space(s@[k]),
    ensures
        b < r <= j,
        !is_space(s@[r - 1]),
        forall|k: int| r <= k < s@.len() ==> is_space(s@[k]),
    decreases j,
{
    let c = s.get_char(j - 1);
    if c.is_whitespace() {
        scan_back(s, b, j - 1)
    } else {
        j
    }
}

/// Removes leading and trailing whitespace, as the draft is normalized before
/// a task is created from it.
pub fn trim_str(s: &str) -> (r: &str)
    ensures
        r@ == trim_spec(s@),
{
    let len = s.unicode_len();
    let b = scan_front(s, 0, len);
    if b == len {
        proof {
            lemma_trim_front_skip(s@, len as int);
            lemma_trim_back_take(trim_front(s@), 0);
            assert(trim_spec(s@) =~= s@.subrange(len as int, len as int));
        }
        s.substring_char(len, len)
    } else {
        let e = scan_back(s, b, len);
        proof {
            lemma_trim_front_skip(s@, b as int);
            let t = s@.subrange(b as int, len as int);
            assert forall|k: int| e - b <= k < t.len() implies is_space(t[k]) by {
                assert(t[k] == s@[k + b]);
            }
            assert(!is_space(t[e - b - 1]));
            lemma_trim_back_take(t, e - b);
            assert(trim_spec(s@) =~= s@.subrange(b as int, e as int));
        }
        s.substring_char(b, e)
    }
}

/// The character for a single decimal digit.
pub open spec fn digit_char(d: nat) -> char {
    if d == 0 {
        '0'
    } else if d == 1 {
        '1'
    } else if d == 2 {
        '2'
    } else if d == 3 {
        '3'
    } else if d == 4 {
        '4'
    } else if d == 5 {
        '5'
    } else if d == 6 {
        '6'
    } else if d == 7 {
        '7'
    } else if d == 8 {
        '8'
    } else {
        '9'
    }
}

/// The decimal representation of a natural number, most significant digit
/// first, with no leading zeros (a lone zero for 0).
pub open spec fn dec_str(n: nat) -> Seq<char>
    decreases n,
{
    if n < 10 {
        seq![digit_char(n)]
    } else {
        dec_str(n / 10) + seq![digit_char(n % 10)]
    }
}

fn digit_literal(d: usize) -> (s: &'static str)
    requires
        d < 10,
    ensures
        s@ == seq![digit_char(d as nat)],
{
    if d == 0 {
        proof {
            reveal_strlit("0");
        }
        assert("0"@ =~= seq![digit_char(0)]);
        "0"
    } else if d == 1 {
        proof {
            reveal_strlit("1");
        }
        assert("1"@ =~= seq![digit_char(1)]);
        "1"
    } else if d == 2 {
        proof {
            reveal_strlit("2");
        }
        assert("2"@ =~= seq![digit_char(2)]);
        "2"
    } else if d == 3 {
        proof {
            reveal_strlit("3");
        }
        assert("3"@ =~= seq![digit_char(3)]);
        "3"
    } else if d == 4 {
        proof {
            reveal_strlit("4");
        }
        assert("4"@ =~= seq![digit_char(4)]);
        "4"
    } else if d == 5 {
        proof {
            reveal_strlit("5");
        }
        assert("5"@ =~= seq![digit_char(5)]);
        "5"
    } else if d == 6 {
        proof {
            reveal_strlit("6");
        }
        assert("6"@ =~= seq![digit_char(6)]);
        "6"
    } else if d == 7 {
        proof {
            reveal_strlit("7");
        }
        assert("7"@ =~= seq![digit_char(7)]);
        "7"
    } else if d == 8 {
        proof {
            reveal_strlit("8");
        }
        assert("8"@ =~= seq![digit_char(8)]);
        "8"
    } else {
        proof {
            reveal_strlit("9");
        }
        assert("9"@ =~= seq![digit_char(9)]);
        "9"
    }
}

/// Renders a counter in decimal.
pub fn usize_to_string(n: usize) -> (s: String)
    ensures
        s@ == dec_str(n as nat),
    decreases n,
{
    if n < 10 {
        String::from_str(digit_literal(n))
    } else {
        let q = n / 10;
        let r = n % 10;
        let front = usize_to_string(q);
        front.concat(digit_literal(r))
    }
}

} // verus!
