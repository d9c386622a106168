//! Decimal numbers in text: reading the sort order that an editor field
//! holds, and writing counts.
use vstd::prelude::*;
use vstd::string::*;

verus! {

/// A decimal digit.
pub open spec fn is_digit(c: char) -> bool {
    '0' <= c && c <= '9'
}

/// The value of a decimal digit.
pub open spec fn digit_value(c: char) -> int {
    c as int - '0' as int
}

/// The value of a sequence of decimal digits (0 for none).
pub open spec fn digits_value(digits: Seq<char>) -> int
    decreases digits.len(),
{
    if digits.len() == 0 {
        0
    } else {
        digits_value(digits.drop_last()) * 10 + digit_value(digits.last())
    }
}

/// Whether every character of `s` is a decimal digit.
pub open spec fn all_digits(s: Seq<char>) -> bool {
    forall|i: int| 0 <= i < s.len() ==> is_digit(#[trigger] s[i])
}

/// The `i32` that `str::parse::<i32>` reads from `s`: an optional `+` or
/// `-`, then one or more decimal digits, the value within the range of `i32`.
pub open spec fn parsed_i32(s: Seq<char>) -> Option<i32> {
    let negative = s.len() > 0 && s[0] == '-';
    let digits = if s.len() > 0 && (s[0] == '-' || s[0] == '+') {
        s.drop_first()
    } else {
        s
    };
    if digits.len() == 0 || !all_digits(digits) {
        None
    } else {
        let value = if negative {
            -digits_value(digits)
        } else {
            digits_value(digits)
        };
        if i32::MIN <= value <= i32::MAX {
            Some(value as i32)
        } else {
            None
        }
    }
}

/// The value of digits grows as digits are added at the end.
pub proof fn lemma_digits_value_grows(digits: Seq<char>, k: int)
    requires
        all_digits(digits),
        0 <= k <= digits.len(),
    ensures
        0 <= digits_value(digits.take(k)) <= digits_value(digits),
    decreases digits.len(),
{
    if k == digits.len() {
        assert(digits.take(k) =~= digits);
        if digits.len() > 0 {
            lemma_digits_value_grows(digits.drop_last(), k - 1);
        }
    } else {
        let shorter = digits.drop_last();
        assert(all_digits(shorter)) by {
            assert forall|i: int| 0 <= i < shorter.len() implies is_digit(#[trigger] shorter[i]) by {
                assert(shorter[i] == digits[i]);
            }
        }
        lemma_digits_value_grows(shorter, k);
        assert(shorter.take(k) =~= digits.take(k));
        assert(is_digit(digits.last()));
    }
}

/// The `i32` that `text` holds, read as `str::parse::<i32>` reads it.
#[verifier::loop_isolation(false)]
pub fn parse_i32(text: &str) -> (res: Option<i32>)
    ensures
        res == parsed_i32(text@),
{
    let n = text.unicode_len();
    if n == 0 {
        return None;
    }
    let first = text.get_char(0);
    let negative = first == '-';
    let start: usize = if first == '-' || first == '+' {
        1
    } else {
        0
    };
    let ghost digits = if start == 1 {
        text@.drop_first()
    } else {
        text@
    };
    assert(digits =~= text@.subrange(start as int, n as int));
    if start == n {
        return None;
    }
    let limit: i64 = if negative {
        2147483648
    } else {
        2147483647
    };
    let mut value: i64 = 0;
    let mut i: usize = start;
    assert(text@.subrange(start as int, start as int).len() == 0);
    while i < n
        invariant
            n == text@.len(),
            start <= i <= n,
            digits == text@.subrange(start as int, n as int),
            value == digits_value(text@.subrange(start as int, i as int)),
            0 <= value <= limit,
            limit == 2147483647 || limit == 2147483648,
            forall|k: int| start <= k < i ==> is_digit(#[trigger] text@[k]),
        decreases n - i,
    {
        let c = text.get_char(i);
        if !('0' <= c && c <= '9') {
            assert(digits[i - start] == c);
            return None;
        }
        let d: i64 = if c == '0' {
            0
        } else if c == '1' {
            1
        } else if c == '2' {
            2
        } else if c == '3' {
            3
        } else if c == '4' {
            4
        } else if c == '5' {
            5
        } else if c == '6' {
            6
        } else if c == '7' {
            7
        } else if c == '8' {
            8
        } else {
            9
        };
        assert(d == digit_value(c));
        let ghost prefix = text@.subrange(start as int, i + 1);
        assert(prefix.drop_last() =~= text@.subrange(start as int, i as int));
        assert(prefix.last() == c);
        value = value * 10 + d;
        if value > limit {
            proof {
                if all_digits(digits) {
                    assert(digits.take(i + 1 - start) =~= prefix);
                    lemma_digits_value_grows(digits, i + 1 - start);
                }
            }
            return None;
        }
        i = i + 1;
    }
    assert(text@.subrange(start as int, n as int) == digits);
    assert(all_digits(digits)) by {
        assert forall|k: int| 0 <= k < digits.len() implies is_digit(#[trigger] digits[k]) by {
            assert(digits[k] == text@[k + start]);
        }
    }
    if negative {
        Some((0 - value) as i32)
    } else {
        Some(value as i32)
    }
}

/// The sort order that an editor field holds: its `i32` value, or 0 when
/// it holds none.
pub fn parse_sort_order(text: &str) -> (order: i32)
    ensures
        order == match parsed_i32(text@) {
            Some(v) => v,
            None => 0i32,
        },
{
    match parse_i32(text) {
        Some(v) => v,
        None => 0,
    }
}

/// The digit character of `d` (0 to 9).
pub open spec fn digit_char(d: int) -> char {
    (d + '0' as int) as char
}

/// The decimal text of `n`, without leading zeros.
pub open spec fn decimal(n: nat) -> Seq<char>
    decreases n,
{
    if n < 10 {
        seq![digit_char(n as int)]
    } else {
        decimal(n / 10).push(digit_char((n % 10) as int))
    }
}

/// The text of one decimal digit.
fn digit_text(d: usize) -> (text: &'static str)
    requires
        d < 10,
    ensures
        text@ == seq![digit_char(d as int)],
{
    proof {
        reveal_strlit("0");
        reveal_strlit("1");
        reveal_strlit("2");
        reveal_strlit("3");
        reveal_strlit("4");
        reveal_strlit("5");
        reveal_strlit("6");
        reveal_strlit("7");
        reveal_strlit("8");
        reveal_strlit("9");
    }
    let text = if d == 0 {
        "0"
    } else if d == 1 {
        "1"
    } else if d == 2 {
        "2"
    } else if d == 3 {
        "3"
    } else if d == 4 {
        "4"
    } else if d == 5 {
        "5"
    } else if d == 6 {
        "6"
    } else if d == 7 {
        "7"
    } else if d == 8 {
        "8"
    } else {
        "9"
    };
    assert(text@ =~= seq![digit_char(d as int)]);
    text
}

/// The decimal text of `n` is a run of digits without leading zeros that
/// reads back as `n`.
pub proof fn lemma_decimal_reads_back(n: nat)
    ensures
        decimal(n).len() >= 1,
        all_digits(decimal(n)),
        decimal(n).len() > 1 ==> decimal(n)[0] != '0',
        digits_value(decimal(n)) == n,
    decreases n,
{
    if n >= 10 {
        let q = n / 10;
        let d = decimal(n);
        lemma_decimal_reads_back(q);
        assert(d.drop_last() =~= decimal(q));
        assert(d.last() == digit_char((n % 10) as int));
        assert(digit_value(digit_char((n % 10) as int)) == n % 10);
        assert(digits_value(d) == digits_value(decimal(q)) * 10 + digit_value(d.last()));
        assert(n == q * 10 + n % 10);
        assert forall|i: int| 0 <= i < d.len() implies is_digit(#[trigger] d[i]) by {
            if i < d.len() - 1 {
                assert(d[i] == decimal(q)[i]);
            }
        }
        if decimal(q).len() == 1 {
            assert(q < 10) by {
                if q >= 10 {
                    lemma_decimal_reads_back(q / 10);
                    assert(decimal(q).len() == decimal(q / 10).len() + 1);
                }
            }
            assert(q >= 1);
            assert(d[0] == decimal(q)[0]);
        } else {
            assert(d[0] == decimal(q)[0]);
        }
    } else {
        assert(digit_value(digit_char(n as int)) == n);
        assert(decimal(n).drop_last() =~= Seq::<char>::empty());
        assert(digits_value(Seq::<char>::empty()) == 0);
    }
}

/// Text that `decimal_text` writes for a number up to `i32::MAX` reads
/// back, through `str::parse::<i32>`, as that number.
pub proof fn lemma_decimal_parses_back(n: nat)
    requires
        n <= i32::MAX,
    ensures
        parsed_i32(decimal(n)) == Some(n as i32),
{
    lemma_decimal_reads_back(n);
    let d = decimal(n);
    assert(is_digit(d[0]));
}

/// The decimal text of `n`: digits without leading zeros whose value is `n`.
pub fn decimal_text(n: usize) -> (text: String)
    ensures
        text@ == decimal(n as nat),
        text@.len() >= 1,
        forall|i: int| 0 <= i < text@.len() ==> '0' <= #[trigger] text@[i] && text@[i] <= '9',
        text@.len() > 1 ==> text@[0] != '0',
        digits_value(text@) == n,
        n <= i32::MAX ==> parsed_i32(text@) == Some(n as i32),
    decreases n,
{
    let text = if n < 10 {
        digit_text(n).to_owned()
    } else {
        let mut text = decimal_text(n / 10);
        text.append(digit_text(n % 10));
        text
    };
    proof {
        assert(text@ =~= decimal(n as nat));
        lemma_decimal_reads_back(n as nat);
        if n <= i32::MAX {
            lemma_decimal_parses_back(n as nat);
        }
    }
    text
}

/// The summary above the department table: how many departments the
/// current tenant has.
pub fn departments_detail(count: usize) -> (text: String)
    ensures
        text@ == "当前租户 · "@ + decimal(count as nat) + " 个部门"@,
{
    let mut text = "当前租户 · ".to_owned();
    text.append(decimal_text(count).as_str());
    text.append(" 个部门");
    text
}

/// The summary above the post table: how many posts the current tenant has.
pub fn posts_detail(count: usize) -> (text: String)
    ensures
        text@ == "当前租户 · "@ + decimal(count as nat) + " 个岗位"@,
{
    let mut text = "当前租户 · ".to_owned();
    text.append(decimal_text(count).as_str());
    text.append(" 个岗位");
    text
}

} // verus!
