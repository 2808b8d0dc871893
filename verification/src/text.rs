use vstd::prelude::*;

verus! {

/// The characters of `s`, in order.
pub fn chars_of(s: &str) -> (r: Vec<char>)
    ensures
        r@ == s@,
{
    let mut out: Vec<char> = Vec::new();
    for c in it: s.chars()
        invariant
            out@ == it.seq().take(it.index() as int),
    {
        out.push(c);
    }
    out
}

/// Whether two strings hold the same characters.
pub fn same_text(a: &str, b: &str) -> (r: bool)
    ensures
        r == (a@ == b@),
{
    let x = String::from_str(a);
    let y = String::from_str(b);
    x == y
}

/// `a` followed by `b`.
pub fn joined(a: &str, b: &str) -> (r: String)
    ensures
        r@ == a@ + b@,
{
    let mut x = String::from_str(a);
    x.append(b);
    x
}

/// The Unicode `White_Space` property, which `str::trim` strips.
pub open spec fn is_white_space(c: char) -> bool {
    let u = c as u32;
    ||| 0x09 <= u <= 0x0D
    ||| u == 0x20
    ||| u == 0x85
    ||| u == 0xA0
    ||| u == 0x1680
    ||| 0x2000 <= u <= 0x200A
    ||| u == 0x2028
    ||| u == 0x2029
    ||| u == 0x202F
    ||| u == 0x205F
    ||| u == 0x3000
}

/// `s` without its leading and trailing white space.
pub open spec fn trim_chars(s: Seq<char>) -> Seq<char>
    decreases s.len(),
{
    if s.len() == 0 {
        s
    } else if is_white_space(s[0]) {
        trim_chars(s.drop_first())
    } else if is_white_space(s.last()) {
        trim_chars(s.drop_last())
    } else {
        s
    }
}

pub fn white_space(c: char) -> (r: bool)
    ensures
        r == is_white_space(c),
{
    let u = c as u32;
    (0x09 <= u && u <= 0x0D) || u == 0x20 || u == 0x85 || u == 0xA0 || u == 0x1680 || (0x2000
        <= u && u <= 0x200A) || u == 0x2028 || u == 0x2029 || u == 0x202F || u == 0x205F || u
        == 0x3000
}

proof fn lemma_trim_bounds(s: Seq<char>, lo: int, hi: int)
    requires
        0 <= lo <= hi <= s.len(),
        forall|i: int| 0 <= i < lo ==> is_white_space(#[trigger] s[i]),
        forall|i: int| hi <= i < s.len() ==> is_white_space(#[trigger] s[i]),
        lo < hi ==> !is_white_space(s[lo]) && !is_white_space(s[hi - 1]),
    ensures
        trim_chars(s) == s.subrange(lo, hi),
    decreases s.len(),
{
    if s.len() == 0 {
    } else if is_white_space(s[0]) {
        let t = s.drop_first();
        if lo == 0 {
            assert(lo == hi);
            assert forall|i: int| 0 <= i < t.len() implies is_white_space(#[trigger] t[i]) by {
                assert(t[i] == s[i + 1]);
            }
            lemma_trim_bounds(t, 0, 0);
            assert(t.subrange(0, 0) =~= s.subrange(lo, hi));
        } else {
            assert forall|i: int| hi - 1 <= i < t.len() implies is_white_space(#[trigger] t[i]) by {
                assert(t[i] == s[i + 1]);
            }
            assert forall|i: int| 0 <= i < lo - 1 implies is_white_space(#[trigger] t[i]) by {
                assert(t[i] == s[i + 1]);
            }
            lemma_trim_bounds(t, lo - 1, hi - 1);
            assert(t.subrange(lo - 1, hi - 1) =~= s.subrange(lo, hi));
        }
    } else if is_white_space(s.last()) {
        let t = s.drop_last();
        if hi == s.len() {
            assert(lo < hi);
        }
        lemma_trim_bounds(t, lo, hi);
        assert(t.subrange(lo, hi) =~= s.subrange(lo, hi));
    } else {
        if lo > 0 {
            assert(is_white_space(s[0]));
        }
        if hi < s.len() {
            assert(is_white_space(s[s.len() - 1]));
        }
        assert(s.subrange(0, s.len() as int) =~= s);
    }
}

/// The number of characters that remain of `s` once white space is trimmed from both ends.
pub fn trimmed_char_count(s: &str) -> (r: usize)
    ensures
        r == trim_chars(s@).len(),
{
    let cs = chars_of(s);
    let n = cs.len();
    let mut lo: usize = 0;
    while lo < n && white_space(cs[lo])
        invariant
            lo <= n,
            n == cs@.len(),
            forall|i: int| 0 <= i < lo ==> is_white_space(#[trigger] cs@[i]),
        decreases n - lo,
    {
        lo = lo + 1;
    }
    let mut hi: usize = n;
    while hi > lo && white_space(cs[hi - 1])
        invariant
            lo <= hi <= n,
            n == cs@.len(),
            forall|i: int| hi <= i < n ==> is_white_space(#[trigger] cs@[i]),
        decreases hi,
    {
        hi = hi - 1;
    }
    proof {
        lemma_trim_bounds(cs@, lo as int, hi as int);
    }
    hi - lo
}

/// The decimal digit `d`.
pub open spec fn digit_char(d: nat) -> char {
    if d == 0 {
        '0'
    } else if d == 1 {
        '1'
    } else if d == 2 {
        '2'
    } else if d == 3 {
        '3'
    } else if d == 4 {
        '4'
    } else if d == 5 {
        '5'
    } else if d == 6 {
        '6'
    } else if d == 7 {
        '7'
    } else if d == 8 {
        '8'
    } else {
        '9'
    }
}

/// The decimal notation of `n`, without leading zeros.
pub open spec fn decimal(n: nat) -> Seq<char>
    decreases n,
{
    if n < 10 {
        seq![digit_char(n)]
    } else {
        decimal(n / 10).push(digit_char(n % 10))
    }
}

/// The last `w` decimal digits of `r`, with leading zeros.
pub open spec fn padded(r: nat, w: nat) -> Seq<char>
    decreases w,
{
    if w == 0 {
        Seq::empty()
    } else {
        padded(r / 10, (w - 1) as nat).push(digit_char(r % 10))
    }
}

/// The `w` digits of a fractional part `r`, with the trailing zeros left out.
pub open spec fn fraction_digits(r: nat, w: nat) -> Seq<char>
    decreases w,
{
    if w > 0 && r % 10 == 0 {
        fraction_digits(r / 10, (w - 1) as nat)
    } else {
        padded(r, w)
    }
}

fn digit_str(d: u128) -> (r: &'static str)
    requires
        d < 10,
    ensures
        r@ == seq![digit_char(d as nat)],
{
    if d == 0 {
        proof {
            reveal_strlit("0");
        }
        "0"
    } else if d == 1 {
        proof {
            reveal_strlit("1");
        }
        "1"
    } else if d == 2 {
        proof {
            reveal_strlit("2");
        }
        "2"
    } else if d == 3 {
        proof {
            reveal_strlit("3");
        }
        "3"
    } else if d == 4 {
        proof {
            reveal_strlit("4");
        }
        "4"
    } else if d == 5 {
        proof {
            reveal_strlit("5");
        }
        "5"
    } else if d == 6 {
        proof {
            reveal_strlit("6");
        }
        "6"
    } else if d == 7 {
        proof {
            reveal_strlit("7");
        }
        "7"
    } else if d == 8 {
        proof {
            reveal_strlit("8");
        }
        "8"
    } else {
        proof {
            reveal_strlit("9");
        }
        "9"
    }
}

/// The decimal notation of `n`.
pub fn decimal_text(n: u128) -> (r: String)
    ensures
        r@ == decimal(n as nat),
    decreases n,
{
    if n < 10 {
        String::from_str(digit_str(n))
    } else {
        let mut s = decimal_text(n / 10);
        s.append(digit_str(n % 10));
        s
    }
}

fn padded_text(r: u128, w: u64) -> (s: String)
    ensures
        s@ == padded(r as nat, w as nat),
    decreases w,
{
    if w == 0 {
        String::new()
    } else {
        let mut s = padded_text(r / 10, w - 1);
        s.append(digit_str(r % 10));
        s
    }
}

fn fraction_digits_text(r: u128, w: u64) -> (s: String)
    ensures
        s@ == fraction_digits(r as nat, w as nat),
    decreases w,
{
    if w > 0 && r % 10 == 0 {
        fraction_digits_text(r / 10, w - 1)
    } else {
        padded_text(r, w)
    }
}

/// A count of millionths written as a decimal number: `1500000` reads `1.5`.
pub open spec fn millionths_text(v: nat) -> Seq<char> {
    if v % 1_000_000 == 0 {
        decimal(v / 1_000_000)
    } else {
        decimal(v / 1_000_000) + seq!['.'] + fraction_digits(v % 1_000_000, 6)
    }
}

pub fn millionths_to_text(v: u128) -> (r: String)
    ensures
        r@ == millionths_text(v as nat),
{
    let mut s = decimal_text(v / 1_000_000);
    if v % 1_000_000 != 0 {
        proof {
            reveal_strlit(".");
        }
        s.append(".");
        let f = fraction_digits_text(v % 1_000_000, 6);
        s.append(f.as_str());
    }
    s
}

} // verus!
