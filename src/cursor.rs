//! The feed cursor `"<epochMillis>::<contentId>"` and the decimal integers inside it.
use vstd::prelude::*;
use vstd::string::*;

verus! {

pub open spec fn is_digit(c: char) -> bool {
    '0' <= c && c <= '9'
}

pub open spec fn digit_value(c: char) -> int {
    (c as int) - ('0' as int)
}

pub open spec fn all_digits(s: Seq<char>) -> bool {
    forall|i: int| 0 <= i < s.len() ==> is_digit(#[trigger] s[i])
}

/// The value of a string of decimal digits, most significant first.
pub open spec fn digits_value(s: Seq<char>) -> int
    decreases s.len(),
{
    if s.len() == 0 {
        0
    } else {
        digits_value(s.drop_last()) * 10 + digit_value(s.last())
    }
}

/// An optional sign followed by at least one decimal digit.
pub open spec fn parse_int(s: Seq<char>) -> Option<int> {
    if s.len() > 0 && (s[0] == '-' || s[0] == '+') {
        let rest = s.drop_first();
        if rest.len() > 0 && all_digits(rest) {
            if s[0] == '-' {
                Some(-digits_value(rest))
            } else {
                Some(digits_value(rest))
            }
        } else {
            None
        }
    } else if s.len() > 0 && all_digits(s) {
        Some(digits_value(s))
    } else {
        None
    }
}

/// A decimal integer that fits in an `i64`.
pub open spec fn parse_i64(s: Seq<char>) -> Option<i64> {
    match parse_int(s) {
        Some(v) => if i64::MIN <= v <= i64::MAX {
            Some(v as i64)
        } else {
            None
        },
        None => None,
    }
}

pub open spec fn digit_char(d: nat) -> char {
    if d == 0 {
        '0'
    } else if d == 1 {
        '1'
    } else if d == 2 {
        '2'
    } else if d == 3 {
        '3'
    } else if d == 4 {
        '4'
    } else if d == 5 {
        '5'
    } else if d == 6 {
        '6'
    } else if d == 7 {
        '7'
    } else if d == 8 {
        '8'
    } else {
        '9'
    }
}

/// The shortest decimal digits of a natural number.
pub open spec fn nat_digits(n: nat) -> Seq<char>
    decreases n,
{
    if n < 10 {
        seq![digit_char(n)]
    } else {
        nat_digits(n / 10).push(digit_char(n % 10))
    }
}

/// How an integer is written in decimal, with a leading `-` when negative.
pub open spec fn decimal_of(n: int) -> Seq<char> {
    if n < 0 {
        seq!['-'] + nat_digits((-n) as nat)
    } else {
        nat_digits(n as nat)
    }
}

/// The two characters that separate the fields of a cursor.
pub open spec fn sep_at(s: Seq<char>, i: int) -> bool {
    0 <= i && i + 1 < s.len() && s[i] == ':' && s[i + 1] == ':'
}

pub open spec fn has_sep(s: Seq<char>) -> bool {
    exists|i: int| sep_at(s, i)
}

pub open spec fn first_sep(s: Seq<char>, i: int) -> bool {
    sep_at(s, i) && forall|j: int| 0 <= j < i ==> !sep_at(s, j)
}

/// The fields of `s` split at `::`, where there are exactly two of them.
pub open spec fn two_fields(s: Seq<char>) -> Option<(Seq<char>, Seq<char>)> {
    if exists|i: int| first_sep(s, i) && !has_sep(s.subrange(i + 2, s.len() as int)) {
        let i = choose|i: int| first_sep(s, i) && !has_sep(s.subrange(i + 2, s.len() as int));
        Some((s.subrange(0, i), s.subrange(i + 2, s.len() as int)))
    } else {
        None
    }
}

/// What a cursor means for a page: `None` when it is malformed (not exactly two fields);
/// otherwise the exclusive upper bound on `indexedAt`, or no bound when its first field
/// is not an integer.
pub open spec fn cursor_bound(s: Seq<char>) -> Option<Option<i64>> {
    match two_fields(s) {
        Some(f) => Some(parse_i64(f.0)),
        None => None,
    }
}

/// The cursor that points just past a row with this timestamp and content identifier.
pub open spec fn cursor_text(ts: int, cid: Seq<char>) -> Seq<char> {
    decimal_of(ts) + seq![':', ':'] + cid
}

proof fn lemma_digits_value_step(s: Seq<char>, i: int)
    requires
        0 <= i < s.len(),
    ensures
        digits_value(s.subrange(0, i + 1)) == digits_value(s.subrange(0, i)) * 10 + digit_value(
            s[i],
        ),
{
    assert(s.subrange(0, i + 1).drop_last() =~= s.subrange(0, i));
}

proof fn lemma_digits_value_grows(s: Seq<char>, i: int)
    requires
        0 <= i <= s.len(),
        all_digits(s),
    ensures
        digits_value(s.subrange(0, i)) <= digits_value(s),
    decreases s.len() - i,
{
    if i < s.len() {
        lemma_digits_value_step(s, i);
        assert(is_digit(s[i]));
        lemma_digits_value_grows(s, i + 1);
        assert(digits_value(s.subrange(0, i)) >= 0) by {
            lemma_digits_value_nonneg(s.subrange(0, i));
        }
    } else {
        assert(s.subrange(0, i) =~= s);
    }
}

proof fn lemma_digits_value_nonneg(s: Seq<char>)
    requires
        all_digits(s),
    ensures
        digits_value(s) >= 0,
    decreases s.len(),
{
    if s.len() > 0 {
        assert(is_digit(s[s.len() - 1]));
        lemma_digits_value_nonneg(s.drop_last());
    }
}

proof fn lemma_digit_char(d: nat)
    requires
        d < 10,
    ensures
        is_digit(digit_char(d)),
        digit_value(digit_char(d)) == d,
{
}

proof fn lemma_nat_digits(n: nat)
    ensures
        nat_digits(n).len() >= 1,
        all_digits(nat_digits(n)),
        digits_value(nat_digits(n)) == n,
    decreases n,
{
    if n >= 10 {
        lemma_nat_digits(n / 10);
        lemma_digit_char(n % 10);
        let d = nat_digits(n / 10);
        assert(nat_digits(n).drop_last() =~= d);
        assert(nat_digits(n).last() == digit_char(n % 10));
        vstd::arithmetic::div_mod::lemma_fundamental_div_mod(n as int, 10);
        assert(digits_value(nat_digits(n)) == digits_value(d) * 10 + digit_value(
            digit_char(n % 10),
        ));
    } else {
        lemma_digit_char(n);
        assert(nat_digits(n).drop_last() =~= Seq::<char>::empty());
        assert(digits_value(Seq::<char>::empty()) == 0);
        assert(digits_value(nat_digits(n)) == digit_value(digit_char(n)));
    }
}

/// Reading back what `decimal_of` writes gives the same integer.
pub proof fn lemma_parse_decimal(n: int)
    ensures
        parse_int(decimal_of(n)) == Some(n),
{
    if n < 0 {
        let m = (-n) as nat;
        lemma_nat_digits(m);
        assert(decimal_of(n).drop_first() =~= nat_digits(m));
    } else {
        lemma_nat_digits(n as nat);
        assert(is_digit(nat_digits(n as nat)[0]));
    }
}

/// Relies on `<i64 as ToString>::to_string`: the decimal form, `-` first when negative.
#[verifier::external_body]
fn i64_decimal(n: i64) -> (r: String)
    ensures
        r@ == decimal_of(n as int),
{
    n.to_string()
}

/// Writes the cursor that points just past a row.
pub fn encode_cursor(ts: i64, cid: &String) -> (r: String)
    ensures
        r@ == cursor_text(ts as int, cid@),
{
    let d = i64_decimal(ts);
    let sep = "::";
    proof {
        reveal_strlit("::");
    }
    let r = d.concat(sep);
    let r = r.concat(cid.as_str());
    assert(r@ =~= cursor_text(ts as int, cid@));
    r
}

/// Reads a decimal `i64`: an optional sign and at least one digit, nothing else.
pub fn parse_decimal_i64(s: &str) -> (r: Option<i64>)
    ensures
        r == parse_i64(s@),
{
    let n = s.unicode_len();
    if n == 0 {
        return None;
    }
    let c0 = s.get_char(0);
    let neg = c0 == '-';
    let start: usize = if c0 == '-' || c0 == '+' {
        1
    } else {
        0
    };
    let ghost body = s@.subrange(start as int, n as int);
    proof {
        if start == 1 {
            assert(s@.drop_first() =~= body);
        } else {
            assert(s@ =~= body);
        }
    }
    if start == n {
        return None;
    }
    let limit: u64 = if neg {
        9223372036854775808
    } else {
        9223372036854775807
    };
    let mut acc: u64 = 0;
    let mut i: usize = start;
    while i < n
        invariant
            start <= i <= n,
            n == s@.len(),
            body == s@.subrange(start as int, n as int),
            all_digits(body.subrange(0, i - start)),
            acc == digits_value(body.subrange(0, i - start)),
            acc <= limit,
            limit == (if neg { 9223372036854775808u64 } else { 9223372036854775807u64 }),
            neg == (s@[0] == '-'),
            start == (if s@[0] == '-' || s@[0] == '+' { 1usize } else { 0usize }),
            start == 1 ==> s@.drop_first() == body,
            start == 0 ==> s@ == body,
        decreases n - i,
    {
        let c = s.get_char(i);
        if !('0' <= c && c <= '9') {
            assert(body[i - start] == c);
            return None;
        }
        let d: u64 = (c as u32 - '0' as u32) as u64;
        proof {
            lemma_digits_value_step(body, i - start);
            assert(body[i - start] == c);
        }
        if acc > (limit - d) / 10 {
            proof {
                assert(acc * 10 + d > limit) by (nonlinear_arith)
                    requires
                        acc > (limit - d) / 10,
                        d <= limit,
                ;
                if all_digits(body) {
                    lemma_digits_value_grows(body, i - start + 1);
                }
            }
            return None;
        }
        proof {
            assert(acc * 10 + d <= limit) by (nonlinear_arith)
                requires
                    acc <= (limit - d) / 10,
                    d <= limit,
            ;
            assert forall|k: int| 0 <= k < i - start + 1 implies is_digit(
                #[trigger] body.subrange(0, i - start + 1)[k],
            ) by {
                if k < i - start {
                    assert(body.subrange(0, i - start + 1)[k] == body.subrange(0, i - start)[k]);
                }
            }
        }
        acc = acc * 10 + d;
        i += 1;
    }
    assert(body.subrange(0, n - start) =~= body);
    if neg {
        if acc == 9223372036854775808 {
            Some(i64::MIN)
        } else {
            Some(-(acc as i64))
        }
    } else {
        Some(acc as i64)
    }
}

/// Reads a feed cursor: `None` when it does not have exactly two `::`-separated fields,
/// otherwise the bound its first field gives (see `cursor_bound`).
pub fn parse_cursor(s: &str) -> (r: Option<Option<i64>>)
    ensures
        r == cursor_bound(s@),
{
    let n = s.unicode_len();
    let mut i: usize = 0;
    let mut found = false;
    while n > 0 && i < n - 1 && !found
        invariant
            n == s@.len(),
            i <= n,
            forall|j: int| 0 <= j < i ==> !sep_at(s@, j),
            found ==> sep_at(s@, i as int),
        decreases n - i + (if found { 0int } else { 1int }),
    {
        if s.get_char(i) == ':' && s.get_char(i + 1) == ':' {
            found = true;
        } else {
            i += 1;
        }
    }
    if !found {
        assert(!has_sep(s@));
        assert(two_fields(s@).is_none());
        return None;
    }
    let mut j: usize = i + 2;
    while j < n - 1
        invariant
            n == s@.len(),
            i + 1 < n,
            forall|k: int| 0 <= k < i ==> !sep_at(s@, k),
            sep_at(s@, i as int),
            i + 2 <= j <= n,
            forall|k: int| i + 2 <= k < j ==> !sep_at(s@, k),
        decreases n - j,
    {
        if s.get_char(j) == ':' && s.get_char(j + 1) == ':' {
            proof {
                assert forall|k: int| first_sep(s@, k) implies has_sep(
                    s@.subrange(k + 2, s@.len() as int),
                ) by {
                    assert(k == i);
                    assert(sep_at(s@.subrange(k + 2, s@.len() as int), j - k - 2));
                }
            }
            return None;
        }
        j += 1;
    }
    let ghost rest = s@.subrange(i + 2, n as int);
    proof {
        assert forall|k: int| !sep_at(rest, k) by {
            if sep_at(rest, k) {
                assert(sep_at(s@, k + i + 2));
            }
        }
        assert(first_sep(s@, i as int) && !has_sep(rest));
        assert forall|k: int|
            first_sep(s@, k) && !has_sep(s@.subrange(k + 2, s@.len() as int)) implies k
            == i by {
            if k < i {
                assert(!sep_at(s@, k));
            } else if k > i {
                assert(!sep_at(s@, i as int));
            }
        }
    }
    let head = s.substring_char(0, i);
    Some(parse_decimal_i64(head))
}

/// A cursor written by `encode_cursor` reads back as the timestamp it was written from,
/// when the content identifier holds no `::`.
pub proof fn lemma_cursor_round_trip(ts: i64, cid: Seq<char>)
    requires
        !has_sep(cid),
    ensures
        cursor_bound(cursor_text(ts as int, cid)) == Some(Some(ts)),
{
    let s = cursor_text(ts as int, cid);
    let d = decimal_of(ts as int);
    let i = d.len() as int;
    lemma_parse_decimal(ts as int);
    lemma_decimal_has_no_colon(ts as int);
    assert(sep_at(s, i));
    assert forall|j: int| 0 <= j < i implies !sep_at(s, j) by {
        assert(s[j] == d[j]);
    }
    assert(s.subrange(i + 2, s.len() as int) =~= cid);
    assert(s.subrange(0, i) =~= d);
    assert(first_sep(s, i));
    assert(!has_sep(s.subrange(i + 2, s.len() as int)));
    assert(parse_i64(d) == Some(ts));
    assert forall|k: int|
        first_sep(s, k) && !has_sep(s.subrange(k + 2, s.len() as int)) implies k == i by {
        if k > i {
            assert(!sep_at(s, i));
        }
    }
}

proof fn lemma_decimal_has_no_colon(n: int)
    ensures
        forall|j: int| 0 <= j < decimal_of(n).len() ==> decimal_of(n)[j] != ':',
{
    if n < 0 {
        lemma_nat_digits((-n) as nat);
        assert forall|j: int| 0 <= j < decimal_of(n).len() implies decimal_of(n)[j] != ':' by {
            if j > 0 {
                assert(decimal_of(n)[j] == nat_digits((-n) as nat)[j - 1]);
            }
        }
    } else {
        lemma_nat_digits(n as nat);
    }
}

} // verus!
