//! Decimal numbers in text, read and written the way `str::parse` and
//! `ToString` do it for integers.

use vstd::prelude::*;

verus! {

broadcast use vstd::string::is_ascii_spec_bytes;

/// A decimal digit.
pub open spec fn is_digit(c: char) -> bool {
    '0' <= c && c <= '9'
}

/// Every character is a decimal digit.
pub open spec fn all_digits(s: Seq<char>) -> bool {
    forall|i: int| 0 <= i < s.len() ==> is_digit(#[trigger] s[i])
}

/// The number that a run of decimal digits stands for, most significant digit first.
pub open spec fn decimal_value(s: Seq<char>) -> int
    decreases s.len(),
{
    if s.len() == 0 {
        0
    } else {
        decimal_value(s.drop_last()) * 10 + (s.last() as int - 48)
    }
}

/// The digits of an unsigned number once an optional leading `+` is dropped.
pub open spec fn unsigned_body(s: Seq<char>) -> Seq<char> {
    if s.len() > 0 && s[0] == '+' {
        s.drop_first()
    } else {
        s
    }
}

/// What `str::parse` gives for an unsigned integer type whose largest value
/// is `max`: an optional `+`, then at least one digit and nothing else, whose
/// value must not exceed `max`.
pub open spec fn parse_unsigned(s: Seq<char>, max: int) -> Option<int> {
    let b = unsigned_body(s);
    if b.len() > 0 && all_digits(b) && decimal_value(b) <= max {
        Some(decimal_value(b))
    } else {
        None
    }
}

/// What `str::parse` gives for a signed integer type ranging over `min..=max`:
/// a leading `-` negates the digits that follow; otherwise as unsigned.
pub open spec fn parse_signed(s: Seq<char>, min: int, max: int) -> Option<int> {
    if s.len() > 0 && s[0] == '-' {
        let b = s.drop_first();
        if b.len() > 0 && all_digits(b) && -decimal_value(b) >= min {
            Some(-decimal_value(b))
        } else {
            None
        }
    } else {
        parse_unsigned(s, max)
    }
}

/// The decimal digit of a value below ten.
pub open spec fn digit_char(d: nat) -> char {
    (48 + d) as char
}

/// The decimal text of a natural number, without leading zeros.
pub open spec fn decimal_text(n: nat) -> Seq<char>
    decreases n,
{
    if n < 10 {
        seq![digit_char(n)]
    } else {
        decimal_text(n / 10).push(digit_char(n % 10))
    }
}

/// The decimal text of an integer: a `-` before the digits of a negative one.
pub open spec fn signed_decimal_text(n: int) -> Seq<char> {
    if n < 0 {
        seq!['-'] + decimal_text((-n) as nat)
    } else {
        decimal_text(n as nat)
    }
}

proof fn lemma_decimal_value_nonneg(s: Seq<char>)
    requires
        all_digits(s),
    ensures
        decimal_value(s) >= 0,
    decreases s.len(),
{
    if s.len() > 0 {
        assert(all_digits(s.drop_last()));
        lemma_decimal_value_nonneg(s.drop_last());
    }
}

/// The text of a natural number reads back as that number.
pub proof fn lemma_decimal_text_value(n: nat)
    ensures
        decimal_text(n).len() > 0,
        all_digits(decimal_text(n)),
        decimal_value(decimal_text(n)) == n,
    decreases n,
{
    if n < 10 {
        assert(decimal_text(n).drop_last() =~= Seq::<char>::empty());
        assert(digit_char(n) as int == 48 + n);
        let t = decimal_text(n);
        assert(t.len() == 1);
        assert(t.last() == digit_char(n));
        assert(decimal_value(t) == decimal_value(t.drop_last()) * 10 + (t.last() as int - 48));
    } else {
        lemma_decimal_text_value(n / 10);
        let t = decimal_text(n);
        assert(t.drop_last() =~= decimal_text(n / 10));
        assert(t.last() == digit_char(n % 10));
        assert((n / 10) * 10 + n % 10 == n);
        assert(digit_char(n % 10) as int == 48 + n % 10);
        assert forall|i: int| 0 <= i < t.len() implies is_digit(#[trigger] t[i]) by {
            if i < t.len() - 1 {
                assert(t[i] == decimal_text(n / 10)[i]);
            }
        }
    }
}

/// Reading the decimal text of any integer in range gives the integer back.
pub proof fn lemma_parse_signed_text(n: int, min: int, max: int)
    requires
        min <= n <= max,
        min <= 0,
    ensures
        parse_signed(signed_decimal_text(n), min, max) == Some(n),
{
    if n < 0 {
        lemma_decimal_text_value((-n) as nat);
        let t = signed_decimal_text(n);
        assert(t.drop_first() =~= decimal_text((-n) as nat));
    } else {
        lemma_decimal_text_value(n as nat);
        let t = decimal_text(n as nat);
        assert(is_digit(t[0]));
        assert(unsigned_body(t) == t);
    }
}

proof fn lemma_ascii_char_byte(c: char)
    requires
        (c as int) < 128,
    ensures
        (c as u8) as int == c as int,
{
}

/// The characters of ASCII text, one byte each; `None` when the text holds
/// any other character.
fn ascii_bytes(s: &str) -> (r: Option<Vec<u8>>)
    ensures
        r matches Some(b) ==> b@.len() == s@.len() && forall|i: int|
            0 <= i < s@.len() ==> b@[i] as int == s@[i] as int && (s@[i] as int) < 128,
        r is None ==> !vstd::utf8::is_ascii_chars(s@),
{
    if s.is_ascii() {
        let bytes = s.as_bytes();
        proof {
            vstd::utf8::is_ascii_chars_nat_bound(s@);
        }
        let mut v: Vec<u8> = Vec::new();
        let mut i: usize = 0;
        while i < bytes.len()
            invariant
                i <= bytes@.len(),
                bytes@.len() == s@.len(),
                forall|j: int| 0 <= j < bytes@.len() ==> bytes@[j] == s@[j] as u8,
                v@ =~= bytes@.subrange(0, i as int),
            decreases bytes@.len() - i,
        {
            v.push(bytes[i]);
            i = i + 1;
        }
        assert(v@ =~= bytes@);
        assert forall|i: int| 0 <= i < s@.len() implies v@[i] as int == s@[i] as int by {
            lemma_ascii_char_byte(s@[i]);
        }
        Some(v)
    } else {
        None
    }
}

proof fn lemma_non_ascii_not_parsed(s: Seq<char>, max: int)
    requires
        !vstd::utf8::is_ascii_chars(s),
    ensures
        parse_unsigned(s, max) is None,
        unsigned_body(s).len() == 0 || !all_digits(unsigned_body(s)),
        s.len() > 0 && s[0] == '-' ==> !all_digits(s.drop_first()),
{
    let i = choose|i: int| 0 <= i < s.len() && !('\0' <= #[trigger] s[i] && s[i] <= '\u{7f}');
    if s.len() > 0 && s[0] == '-' {
        assert(s.drop_first()[i - 1] == s[i]);
    }
    let b = unsigned_body(s);
    if s.len() > 0 && s[0] == '+' {
        assert(b[i - 1] == s[i]);
        assert(!is_digit(b[i - 1]));
    } else {
        assert(!is_digit(b[i]));
    }
}

/// Reads the digits `b[start..]` as a number no larger than `max`; `None`
/// when there are none, when any is not a digit, or when the number is larger.
fn read_digits(b: &Vec<u8>, start: usize, max: u64, ghost_s: Ghost<Seq<char>>) -> (r: Option<u64>)
    requires
        start <= b@.len(),
        b@.len() == ghost_s@.len(),
        forall|i: int| 0 <= i < b@.len() ==> b@[i] as int == ghost_s@[i] as int && (ghost_s@[i] as int) < 128,
        max <= u32::MAX,
    ensures
        ({
            let d = ghost_s@.subrange(start as int, ghost_s@.len() as int);
            match r {
                Some(v) => d.len() > 0 && all_digits(d) && decimal_value(d) <= max && v == decimal_value(d),
                None => !(d.len() > 0 && all_digits(d) && decimal_value(d) <= max),
            }
        }),
{
    let ghost s = ghost_s@;
    let ghost d = s.subrange(start as int, s.len() as int);
    if start == b.len() {
        assert(d.len() == 0);
        return None;
    }
    let mut acc: u64 = 0;
    let mut over = false;
    let mut i: usize = start;
    while i < b.len()
        invariant
            start <= i <= b@.len(),
            b@.len() == s.len(),
            d == s.subrange(start as int, s.len() as int),
            s == ghost_s@,
            forall|k: int| 0 <= k < b@.len() ==> b@[k] as int == s[k] as int && (s[k] as int) < 128,
            all_digits(s.subrange(start as int, i as int)),
            max <= u32::MAX,
            !over ==> acc == decimal_value(s.subrange(start as int, i as int)) && acc <= max,
            over ==> decimal_value(s.subrange(start as int, i as int)) > max,
        decreases b@.len() - i,
    {
        let c = b[i];
        if c < 48 || c > 57 {
            assert(d[i - start] == s[i as int]);
            assert(!is_digit(s[i as int]));
            assert(!all_digits(d));
            return None;
        }
        let ghost p = s.subrange(start as int, i as int);
        let ghost q = s.subrange(start as int, i + 1);
        assert(q.drop_last() =~= p);
        assert(q.last() == s[i as int]);
        assert(is_digit(s[i as int]));
        assert(all_digits(q));
        if !over {
            let next = acc * 10 + (c - 48) as u64;
            if next > max {
                over = true;
            } else {
                acc = next;
            }
        } else {
            proof {
                lemma_decimal_value_nonneg(p);
            }
        }
        i = i + 1;
    }
    assert(s.subrange(start as int, i as int) =~= d);
    if over {
        None
    } else {
        Some(acc)
    }
}

/// `str::parse::<u32>` of decimal text.
pub fn parse_u32(s: &str) -> (r: Option<u32>)
    ensures
        match r {
            Some(v) => parse_unsigned(s@, u32::MAX as int) == Some(v as int),
            None => parse_unsigned(s@, u32::MAX as int) is None,
        },
{
    match parse_unsigned_text(s, 0xffff_ffff) {
        Some(v) => Some(v as u32),
        None => None,
    }
}

/// `str::parse::<u16>` of decimal text.
pub fn parse_u16(s: &str) -> (r: Option<u16>)
    ensures
        match r {
            Some(v) => parse_unsigned(s@, u16::MAX as int) == Some(v as int),
            None => parse_unsigned(s@, u16::MAX as int) is None,
        },
{
    match parse_unsigned_text(s, 0xffff) {
        Some(v) => Some(v as u16),
        None => None,
    }
}

fn parse_unsigned_text(s: &str, max: u64) -> (r: Option<u64>)
    requires
        max <= u32::MAX,
    ensures
        match r {
            Some(v) => parse_unsigned(s@, max as int) == Some(v as int) && v <= max,
            None => parse_unsigned(s@, max as int) is None,
        },
{
    let b = match ascii_bytes(s) {
        Some(b) => b,
        None => {
            proof {
                lemma_non_ascii_not_parsed(s@, max as int);
            }
            return None;
        },
    };
    let start: usize = if b.len() > 0 && b[0] == 43 { 1 } else { 0 };
    proof {
        if b@.len() > 0 && b@[0] == 43 {
            assert(s@[0] == '+');
            assert(unsigned_body(s@) =~= s@.subrange(1, s@.len() as int));
        } else {
            assert(unsigned_body(s@) =~= s@.subrange(0, s@.len() as int));
        }
    }
    read_digits(&b, start, max, Ghost(s@))
}

/// `str::parse::<i32>` of decimal text.
pub fn parse_i32(s: &str) -> (r: Option<i32>)
    ensures
        match r {
            Some(v) => parse_signed(s@, i32::MIN as int, i32::MAX as int) == Some(v as int),
            None => parse_signed(s@, i32::MIN as int, i32::MAX as int) is None,
        },
{
    let b = match ascii_bytes(s) {
        Some(b) => b,
        None => {
            proof {
                lemma_non_ascii_not_parsed(s@, i32::MAX as int);
            }
            return None;
        },
    };
    if b.len() > 0 && b[0] == 45 {
        assert(s@[0] == '-');
        assert(s@.drop_first() =~= s@.subrange(1, s@.len() as int));
        match read_digits(&b, 1, 0x8000_0000, Ghost(s@)) {
            Some(v) => Some((0 - (v as i64)) as i32),
            None => None,
        }
    } else {
        proof {
            if b@.len() > 0 {
                assert(s@[0] != '-');
            }
        }
        match parse_unsigned_text(s, 0x7fff_ffff) {
            Some(v) => Some(v as i32),
            None => None,
        }
    }
}

/// `ToString` of `i32`: its decimal text, with a `-` before a negative number.
#[verifier::external_body]
pub(crate) fn i32_to_string(n: i32) -> (r: String)
    ensures
        r@ == signed_decimal_text(n as int),
{
    n.to_string()
}

/// `str::parse::<bool>`: exactly `true` or `false`.
pub fn parse_bool(s: &str) -> (r: Option<bool>)
    ensures
        r == (if s@ == "true"@ {
            Some(true)
        } else if s@ == "false"@ {
            Some(false)
        } else {
            None::<bool>
        }),
{
    let owned = s.to_owned();
    let t = "true".to_owned();
    let f = "false".to_owned();
    proof {
        reveal_strlit("true");
        reveal_strlit("false");
    }
    if owned == t {
        Some(true)
    } else if owned == f {
        Some(false)
    } else {
        None
    }
}

} // verus!
