//! Character-level text helpers: splitting raw listings into lines, string
//! equality over characters, decimal digit strings and zero padding, and
//! joining path segments.

use vstd::prelude::*;

verus! {

use vstd::string::StrSliceExecFns;
use vstd::string::StringExecFns;

/// Whether two string slices hold the same characters.
pub fn str_eq(a: &str, b: &str) -> (r: bool)
    ensures
        r == (a@ == b@),
{
    let na = a.unicode_len();
    let nb = b.unicode_len();
    if na != nb {
        return false;
    }
    let mut i: usize = 0;
    while i < na
        invariant
            na == a@.len(),
            na == b@.len(),
            0 <= i <= na,
            forall|k: int| 0 <= k < i ==> a@[k] == b@[k],
        decreases na - i,
    {
        if a.get_char(i) != b.get_char(i) {
            return false;
        }
        i += 1;
    }
    proof {
        assert(a@ =~= b@);
    }
    true
}

/// The lines accumulated while walking `s`: `cur` is the line under
/// construction and `acc` the lines already ended by a `'\n'`.
pub open spec fn spec_split_acc(s: Seq<char>, cur: Seq<char>, acc: Seq<Seq<char>>) -> Seq<
    Seq<char>,
>
    decreases s.len(),
{
    if s.len() == 0 {
        acc.push(cur)
    } else if s[0] == '\n' {
        spec_split_acc(s.skip(1), Seq::empty(), acc.push(cur))
    } else {
        spec_split_acc(s.skip(1), cur.push(s[0]), acc)
    }
}

/// The lines of `s` as split on `'\n'`: every separator ends a line, and the
/// text after the last separator is a line too (possibly empty).
pub open spec fn spec_lines(s: Seq<char>) -> Seq<Seq<char>> {
    spec_split_acc(s, Seq::empty(), Seq::empty())
}

/// Splits `s` into its lines on `'\n'`.
pub fn split_lines(s: &str) -> (r: Vec<String>)
    ensures
        r.deep_view() == spec_lines(s@),
{
    let n = s.unicode_len();
    let mut out: Vec<String> = Vec::new();
    let mut start: usize = 0;
    let mut i: usize = 0;
    proof {
        assert(s@.skip(0) =~= s@);
        assert(s@.subrange(0, 0) =~= Seq::<char>::empty());
        assert(out.deep_view() =~= Seq::<Seq<char>>::empty());
    }
    while i < n
        invariant
            n == s@.len(),
            0 <= start <= i <= n,
            spec_lines(s@) == spec_split_acc(
                s@.skip(i as int),
                s@.subrange(start as int, i as int),
                out.deep_view(),
            ),
        decreases n - i,
    {
        let c = s.get_char(i);
        if c == '\n' {
            let line = s.substring_char(start, i).to_owned();
            let ghost prev_acc = out.deep_view();
            out.push(line);
            proof {
                assert(out.deep_view() =~= prev_acc.push(s@.subrange(start as int, i as int)));
                assert(s@.skip(i as int)[0] == s@[i as int]);
                assert(s@.skip(i as int).skip(1) =~= s@.skip(i as int + 1));
                assert(s@.subrange(i as int + 1, i as int + 1) =~= Seq::<char>::empty());
            }
            start = i + 1;
        } else {
            proof {
                assert(s@.skip(i as int)[0] == s@[i as int]);
                assert(s@.skip(i as int).skip(1) =~= s@.skip(i as int + 1));
                assert(s@.subrange(start as int, i as int).push(s@[i as int]) =~= s@.subrange(
                    start as int,
                    i as int + 1,
                ));
            }
        }
        i += 1;
    }
    let line = s.substring_char(start, n).to_owned();
    let ghost prev_acc = out.deep_view();
    out.push(line);
    proof {
        assert(s@.skip(n as int) =~= Seq::<char>::empty());
        assert(out.deep_view() =~= prev_acc.push(s@.subrange(start as int, n as int)));
    }
    out
}

/// The digit character for `d` in `0..=9`.
pub open spec fn spec_digit(d: nat) -> char {
    if d == 0 {
        '0'
    } else if d == 1 {
        '1'
    } else if d == 2 {
        '2'
    } else if d == 3 {
        '3'
    } else if d == 4 {
        '4'
    } else if d == 5 {
        '5'
    } else if d == 6 {
        '6'
    } else if d == 7 {
        '7'
    } else if d == 8 {
        '8'
    } else {
        '9'
    }
}

/// The decimal digits of `n`, most significant first, with no leading zeros
/// (zero itself is the single digit `'0'`).
pub open spec fn spec_decimal(n: nat) -> Seq<char>
    decreases n,
{
    if n < 10 {
        seq![spec_digit(n)]
    } else {
        spec_decimal(n / 10).push(spec_digit(n % 10))
    }
}

fn digit_str(d: u64) -> (r: &'static str)
    requires
        d < 10,
    ensures
        r@ == seq![spec_digit(d as nat)],
{
    proof {
        reveal_strlit("0");
        reveal_strlit("1");
        reveal_strlit("2");
        reveal_strlit("3");
        reveal_strlit("4");
        reveal_strlit("5");
        reveal_strlit("6");
        reveal_strlit("7");
        reveal_strlit("8");
        reveal_strlit("9");
        assert("0"@ =~= seq!['0']);
        assert("1"@ =~= seq!['1']);
        assert("2"@ =~= seq!['2']);
        assert("3"@ =~= seq!['3']);
        assert("4"@ =~= seq!['4']);
        assert("5"@ =~= seq!['5']);
        assert("6"@ =~= seq!['6']);
        assert("7"@ =~= seq!['7']);
        assert("8"@ =~= seq!['8']);
        assert("9"@ =~= seq!['9']);
    }
    match d {
        0 => "0",
        1 => "1",
        2 => "2",
        3 => "3",
        4 => "4",
        5 => "5",
        6 => "6",
        7 => "7",
        8 => "8",
        _ => "9",
    }
}

/// The decimal form of `n` as a string.
pub fn decimal_string(n: u64) -> (r: String)
    ensures
        r@ == spec_decimal(n as nat),
    decreases n,
{
    if n < 10 {
        digit_str(n).to_owned()
    } else {
        let s = decimal_string(n / 10);
        let r = s.concat(digit_str(n % 10));
        proof {
            assert(r@ =~= spec_decimal(n as nat));
        }
        r
    }
}

/// How many digits the decimal form of `n` has, by magnitude.
pub proof fn lemma_decimal_len(n: nat)
    ensures
        n < 10 ==> spec_decimal(n).len() == 1,
        10 <= n < 100 ==> spec_decimal(n).len() == 2,
        100 <= n < 1000 ==> spec_decimal(n).len() == 3,
        1000 <= n < 10000 ==> spec_decimal(n).len() == 4,
        100 <= n ==> spec_decimal(n).len() >= 3,
    decreases n,
{
    if n >= 10 {
        lemma_decimal_len(n / 10);
    }
}

/// `s` left-padded with `'0'` characters up to `width`.
pub open spec fn spec_zero_pad(s: Seq<char>, width: nat) -> Seq<char>
    decreases width - s.len(),
{
    if s.len() >= width {
        s
    } else {
        spec_zero_pad(seq!['0'] + s, width)
    }
}

/// Whether `c` is a decimal digit character.
pub open spec fn spec_is_digit(c: char) -> bool {
    '0' <= c && c <= '9'
}

/// Every character of a decimal string is a digit.
pub proof fn lemma_decimal_digits(n: nat)
    ensures
        forall|k: int|
            0 <= k < spec_decimal(n).len() ==> spec_is_digit(#[trigger] spec_decimal(n)[k]),
    decreases n,
{
    if n < 10 {
        assert(spec_decimal(n)[0] == spec_digit(n));
        assert(spec_is_digit(spec_digit(n)));
    } else {
        lemma_decimal_digits(n / 10);
        let prefix = spec_decimal(n / 10);
        assert forall|k: int| 0 <= k < spec_decimal(n).len() implies spec_is_digit(
            #[trigger] spec_decimal(n)[k],
        ) by {
            if k < prefix.len() {
                assert(spec_decimal(n)[k] == prefix[k]);
            } else {
                assert(spec_decimal(n)[k] == spec_digit(n % 10));
                assert(spec_is_digit(spec_digit(n % 10)));
            }
        }
    }
}

/// Zero padding only ever adds digit characters.
pub proof fn lemma_zero_pad_digits(s: Seq<char>, width: nat)
    requires
        forall|k: int| 0 <= k < s.len() ==> spec_is_digit(#[trigger] s[k]),
    ensures
        forall|k: int|
            0 <= k < spec_zero_pad(s, width).len() ==> spec_is_digit(
                #[trigger] spec_zero_pad(s, width)[k],
            ),
    decreases width - s.len(),
{
    if s.len() < width {
        let padded = seq!['0'] + s;
        assert forall|k: int| 0 <= k < padded.len() implies spec_is_digit(#[trigger] padded[k]) by {
            if k > 0 {
                assert(padded[k] == s[k - 1]);
            } else {
                assert(padded[0] == '0');
            }
        }
        lemma_zero_pad_digits(padded, width);
        assert(spec_zero_pad(s, width) == spec_zero_pad(padded, width));
    } else {
        assert(spec_zero_pad(s, width) == s);
    }
}

/// Zero padding pads exactly up to `width` when the string is shorter, and
/// changes nothing when it is not.
pub proof fn lemma_zero_pad_len(s: Seq<char>, width: nat)
    ensures
        spec_zero_pad(s, width).len() == if s.len() >= width {
            s.len()
        } else {
            width
        },
    decreases width - s.len(),
{
    if s.len() < width {
        lemma_zero_pad_len(seq!['0'] + s, width);
    }
}

/// The decimal form of `n`, left-padded with zeros to at least `width`
/// characters.
pub fn padded_decimal(n: u64, width: usize) -> (r: String)
    ensures
        r@ == spec_zero_pad(spec_decimal(n as nat), width as nat),
{
    let digits = decimal_string(n);
    let mut count = digits.as_str().unicode_len();
    let mut r = digits;
    while count < width
        invariant
            count as int == r@.len(),
            spec_zero_pad(r@, width as nat) == spec_zero_pad(
                spec_decimal(n as nat),
                width as nat,
            ),
        decreases width - count,
    {
        let ghost old_r = r@;
        let mut z = String::from_str("0");
        z.append(r.as_str());
        proof {
            reveal_strlit("0");
            assert(z@ =~= seq!['0'] + old_r);
        }
        r = z;
        count += 1;
    }
    r
}

/// `a` and `b` joined with a single `'/'` separator.
pub open spec fn spec_join(a: Seq<char>, b: Seq<char>) -> Seq<char> {
    a + "/"@ + b
}

/// Joins one path segment onto a base path with a `'/'` separator.
pub fn join_path(a: &str, b: &str) -> (r: String)
    ensures
        r@ == spec_join(a@, b@),
{
    let mut s = String::from_str(a);
    s.append("/");
    s.append(b);
    s
}

} // verus!
