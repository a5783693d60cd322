//! Numbers as text, and comparisons of texts.
use vstd::prelude::*;

verus! {

/// `String::push`: appends one character.
pub assume_specification[ String::push ](text: &mut String, c: char)
    ensures
        final(text)@ == old(text)@.push(c),
;

/// Why a text is not an unsigned number.
#[derive(Debug, Clone, Copy, PartialEq, Eq, Structural)]
pub enum ParseIntError {
    /// The text is empty.
    Empty,
    /// A character is not a digit, or there is only a sign.
    InvalidDigit,
    /// The number is larger than the largest one that is accepted.
    PosOverflow,
}

impl ParseIntError {
    /// What the error says.
    pub open spec fn spec_message(self) -> Seq<char> {
        match self {
            ParseIntError::Empty => "cannot parse integer from empty string"@,
            ParseIntError::InvalidDigit => "invalid digit found in string"@,
            ParseIntError::PosOverflow => "number too large to fit in target type"@,
        }
    }

    /// What the error says.
    pub fn message(&self) -> (text: String)
        ensures
            text@ == self.spec_message(),
    {
        match self {
            ParseIntError::Empty => "cannot parse integer from empty string".to_owned(),
            ParseIntError::InvalidDigit => "invalid digit found in string".to_owned(),
            ParseIntError::PosOverflow => "number too large to fit in target type".to_owned(),
        }
    }
}

/// The decimal digit of a number below ten.
pub open spec fn digit_char(digit: nat) -> char {
    (48 + digit) as char
}

/// A number in decimal, without leading zeros.
pub open spec fn decimal(n: nat) -> Seq<char>
    decreases n,
{
    if n < 10 {
        seq![digit_char(n)]
    } else {
        decimal(n / 10).push(digit_char(n % 10))
    }
}

/// The hexadecimal digit, in lower case, of a number below sixteen.
pub open spec fn hex_char(digit: nat) -> char {
    if digit < 10 {
        (48 + digit) as char
    } else {
        (87 + digit) as char
    }
}

/// The last `width` hexadecimal digits of a number, in lower case.
pub open spec fn hexadecimal(n: nat, width: nat) -> Seq<char>
    decreases width,
{
    if width == 0 {
        Seq::empty()
    } else {
        hexadecimal(n / 16, (width - 1) as nat).push(hex_char(n % 16))
    }
}

pub open spec fn is_digit(c: char) -> bool {
    '0' <= c && c <= '9'
}

/// The number that decimal digits stand for.
pub open spec fn digits_value(s: Seq<char>) -> nat
    decreases s.len(),
{
    if s.len() == 0 {
        0
    } else {
        (digits_value(s.drop_last()) * 10 + (s.last() as int - 48)) as nat
    }
}

/// How many digits a text begins with.
pub open spec fn digit_run(s: Seq<char>) -> nat
    decreases s.len(),
{
    if s.len() == 0 || !is_digit(s[0]) {
        0
    } else {
        1 + digit_run(s.skip(1))
    }
}

/// The number that a text stands for: digits, which one `+` may precede, of a
/// value of at most `max`. Of the errors, the one that is met first, from the
/// left, counts.
pub open spec fn parsed_unsigned(s: Seq<char>, max: nat) -> Result<nat, ParseIntError> {
    if s.len() == 0 {
        Err(ParseIntError::Empty)
    } else {
        let digits = if s[0] == '+' {
            s.skip(1)
        } else {
            s
        };
        let run = digit_run(digits);
        if digits_value(digits.take(run as int)) > max {
            Err(ParseIntError::PosOverflow)
        } else if digits.len() == 0 || run < digits.len() {
            Err(ParseIntError::InvalidDigit)
        } else {
            Ok(digits_value(digits))
        }
    }
}

/// A number in decimal.
pub fn decimal_text(n: u64) -> (text: String)
    ensures
        text@ == decimal(n as nat),
    decreases n,
{
    let mut text = if n < 10 {
        String::new()
    } else {
        decimal_text(n / 10)
    };
    let digit: u8 = (n % 10) as u8;
    text.push((48u8 + digit) as char);
    assert(text@ =~= decimal(n as nat));
    text
}

/// The last `width` hexadecimal digits of a number, in lower case.
pub fn hexadecimal_text(n: u64, width: u8) -> (text: String)
    ensures
        text@ == hexadecimal(n as nat, width as nat),
    decreases width,
{
    if width == 0 {
        String::new()
    } else {
        let mut text = hexadecimal_text(n / 16, width - 1);
        let digit: u8 = (n % 16) as u8;
        if digit < 10 {
            text.push((48u8 + digit) as char);
        } else {
            text.push((87u8 + digit) as char);
        }
        text
    }
}

/// Reads the number that a text stands for, of at most `max`.
pub fn parse_unsigned(s: &str, max: u64) -> (number: Result<u64, ParseIntError>)
    ensures
        match number {
            Ok(n) => parsed_unsigned(s@, max as nat) == Ok::<nat, ParseIntError>(n as nat) && n <= max,
            Err(e) => parsed_unsigned(s@, max as nat) == Err::<nat, ParseIntError>(e),
        },
{
    let ghost signed = s@.len() > 0 && s@[0] == '+';
    let ghost digits = if signed {
        s@.skip(1)
    } else {
        s@
    };
    let mut value: u64 = 0;
    let mut seen: bool = false;
    let mut first: bool = true;
    for c in it: s.chars()
        invariant
            it.seq() == s@,
            signed == (s@.len() > 0 && s@[0] == '+'),
            digits == if signed {
                s@.skip(1)
            } else {
                s@
            },
            first == (it.index() == 0),
            seen == (it.index() > if signed { 1int } else { 0 }),
            0 <= it.index() <= s@.len(),
            !first ==> run_so_far(digits, it.index() - if signed { 1int } else { 0 }),
            value == digits_value(digits.take(if first { 0 } else { it.index() - if signed { 1int } else { 0 } })),
            value <= max,
    {
        let ghost at = it.index() - if signed { 1int } else { 0 };
        if first && c == '+' {
            first = false;
            assert(digits.take(0) =~= Seq::<char>::empty());
        } else {
            first = false;
            seen = true;
            assert(digits[at] == c);
            if c < '0' || c > '9' {
                proof {
                    lemma_digit_run(digits, at);
                }
                return Err(ParseIntError::InvalidDigit);
            }
            let digit: u64 = (c as u32 - 48) as u64;
            proof {
                assert(digits.take(at + 1).drop_last() =~= digits.take(at));
                assert(digits_value(digits.take(at + 1)) == value * 10 + digit);
                assert(run_so_far(digits, at + 1));
            }
            if digit > max || value > (max - digit) / 10 {
                proof {
                    lemma_overflow_stays(digits, at + 1);
                }
                return Err(ParseIntError::PosOverflow);
            }
            value = value * 10 + digit;
        }
    }
    proof {
        lemma_digit_run(digits, digits.len() as int);
        assert(digits.take(digits.len() as int) =~= digits);
    }
    if first {
        Err(ParseIntError::Empty)
    } else if !seen {
        Err(ParseIntError::InvalidDigit)
    } else {
        Ok(value)
    }
}

/// Whether the first `n` characters are digits.
spec fn run_so_far(s: Seq<char>, n: int) -> bool {
    0 <= n <= s.len() && forall|i: int| 0 <= i < n ==> is_digit(#[trigger] s[i])
}

/// The digits that a text begins with end at the first character that is none.
proof fn lemma_digit_run(s: Seq<char>, n: int)
    requires
        run_so_far(s, n),
        n == s.len() || !is_digit(s[n]),
    ensures
        digit_run(s) == n,
    decreases s.len(),
{
    if n > 0 {
        assert(is_digit(s[0]));
        assert forall|i: int| 0 <= i < n - 1 implies is_digit(#[trigger] s.skip(1)[i]) by {
            assert(s.skip(1)[i] == s[i + 1]);
        }
        lemma_digit_run(s.skip(1), n - 1);
    }
}

proof fn lemma_digit_run_covers(s: Seq<char>, n: int)
    requires
        run_so_far(s, n),
    ensures
        n <= digit_run(s) <= s.len(),
        run_so_far(s, digit_run(s) as int),
    decreases s.len(),
{
    if s.len() > 0 && is_digit(s[0]) {
        let rest = if n > 0 {
            n - 1
        } else {
            0
        };
        assert forall|i: int| 0 <= i < rest implies is_digit(#[trigger] s.skip(1)[i]) by {
            assert(s.skip(1)[i] == s[i + 1]);
        }
        lemma_digit_run_covers(s.skip(1), rest);
        assert forall|i: int| 0 <= i < digit_run(s) implies is_digit(#[trigger] s[i]) by {
            if i > 0 {
                assert(s[i] == s.skip(1)[i - 1]);
            }
        }
    } else {
        assert(n == 0 || is_digit(s[0]));
    }
}

proof fn lemma_value_grows(s: Seq<char>, m: int, n: int)
    requires
        run_so_far(s, n),
        0 <= m <= n,
    ensures
        digits_value(s.take(m)) <= digits_value(s.take(n)),
    decreases n,
{
    if m < n {
        assert(is_digit(s[n - 1]));
        lemma_value_grows(s, m, n - 1);
        assert(s.take(n).drop_last() =~= s.take(n - 1));
    }
}

/// What is too large after `n` digits is too large after all of them.
proof fn lemma_overflow_stays(s: Seq<char>, n: int)
    requires
        run_so_far(s, n),
    ensures
        digits_value(s.take(n)) <= digits_value(s.take(digit_run(s) as int)),
{
    lemma_digit_run_covers(s, n);
    lemma_value_grows(s, n, digit_run(s) as int);
}

/// A number that is written in decimal is read back.
pub proof fn decimal_is_read_back(n: nat, max: nat)
    requires
        n <= max,
    ensures
        parsed_unsigned(decimal(n), max) == Ok::<nat, ParseIntError>(n),
{
    lemma_decimal(n);
    let s = decimal(n);
    assert(is_digit(s[0]));
    lemma_digit_run(s, s.len() as int);
    assert(s.take(s.len() as int) =~= s);
}

proof fn lemma_decimal(n: nat)
    ensures
        decimal(n).len() > 0,
        run_so_far(decimal(n), decimal(n).len() as int),
        digits_value(decimal(n)) == n,
    decreases n,
{
    if n < 10 {
        assert(decimal(n).drop_last() =~= Seq::<char>::empty());
        assert(digits_value(Seq::<char>::empty()) == 0);
    } else {
        lemma_decimal(n / 10);
        assert(decimal(n).drop_last() =~= decimal(n / 10));
        assert forall|i: int| 0 <= i < decimal(n).len() implies is_digit(#[trigger] decimal(n)[i]) by {
            if i < decimal(n / 10).len() {
                assert(decimal(n)[i] == decimal(n / 10)[i]);
            }
        }
    }
}

/// A number that is written in decimal is digits alone.
pub proof fn decimal_is_digits(n: nat)
    ensures
        forall|i: int| 0 <= i < decimal(n).len() ==> is_digit(#[trigger] decimal(n)[i]),
{
    lemma_decimal(n);
}

/// Whether a number has no more than `width` hexadecimal digits.
pub open spec fn fits_hexadecimal(n: nat, width: nat) -> bool
    decreases width,
{
    if width == 0 {
        n == 0
    } else {
        fits_hexadecimal(n / 16, (width - 1) as nat)
    }
}

/// Hexadecimal digits tell numbers apart that they hold in full.
pub proof fn hexadecimal_tells_apart(a: nat, b: nat, width: nat)
    requires
        fits_hexadecimal(a, width),
        fits_hexadecimal(b, width),
        hexadecimal(a, width) == hexadecimal(b, width),
    ensures
        a == b,
    decreases width,
{
    if width > 0 {
        let x = hexadecimal(a, width);
        let y = hexadecimal(b, width);
        assert(x.drop_last() =~= hexadecimal(a / 16, (width - 1) as nat));
        assert(y.drop_last() =~= hexadecimal(b / 16, (width - 1) as nat));
        assert(x.last() == y.last());
        hexadecimal_tells_apart(a / 16, b / 16, (width - 1) as nat);
    }
}

/// A `u64` has no more than sixteen hexadecimal digits.
pub proof fn word_fits_hexadecimal(n: u64)
    ensures
        fits_hexadecimal(n as nat, 16),
{
    reveal_with_fuel(fits_hexadecimal, 17);
}

/// Whether two texts are the same.
pub fn same_text(a: &str, b: &str) -> (same: bool)
    ensures
        same == (a@ == b@),
{
    let x = a.as_bytes();
    let y = b.as_bytes();
    proof {
        vstd::utf8::encode_utf8_decode_utf8(a@);
        vstd::utf8::encode_utf8_decode_utf8(b@);
    }
    if x.len() != y.len() {
        return false;
    }
    let mut i: usize = 0;
    while i < x.len()
        invariant
            x@ == vstd::utf8::encode_utf8(a@),
            y@ == vstd::utf8::encode_utf8(b@),
            x@.len() == y@.len(),
            i <= x@.len(),
            forall|j: int| 0 <= j < i ==> x@[j] == y@[j],
        decreases x@.len() - i,
    {
        if x[i] != y[i] {
            return false;
        }
        i = i + 1;
    }
    assert(x@ =~= y@);
    true
}

/// Lexicographic order of byte strings.
pub open spec fn bytes_less(a: Seq<u8>, b: Seq<u8>) -> bool
    decreases a.len(),
{
    if b.len() == 0 {
        false
    } else if a.len() == 0 {
        true
    } else if a[0] != b[0] {
        a[0] < b[0]
    } else {
        bytes_less(a.skip(1), b.skip(1))
    }
}

/// The order of texts: that of their UTF-8 bytes.
pub open spec fn text_less(a: Seq<char>, b: Seq<char>) -> bool {
    bytes_less(vstd::utf8::encode_utf8(a), vstd::utf8::encode_utf8(b))
}

/// How one value stands to another.
#[derive(Debug, Clone, Copy, PartialEq, Eq, Structural)]
pub enum Standing {
    Before,
    Same,
    After,
}

/// Finds how one text stands to another.
pub fn text_standing(a: &str, b: &str) -> (standing: Standing)
    ensures
        match standing {
            Standing::Before => text_less(a@, b@),
            Standing::Same => a@ == b@,
            Standing::After => text_less(b@, a@),
        },
{
    let x = a.as_bytes();
    let y = b.as_bytes();
    proof {
        vstd::utf8::encode_utf8_decode_utf8(a@);
        vstd::utf8::encode_utf8_decode_utf8(b@);
        assert(x@.skip(0) =~= x@);
        assert(y@.skip(0) =~= y@);
    }
    let mut i: usize = 0;
    while i < x.len() && i < y.len()
        invariant
            x@ == vstd::utf8::encode_utf8(a@),
            y@ == vstd::utf8::encode_utf8(b@),
            i <= x@.len(),
            i <= y@.len(),
            forall|j: int| 0 <= j < i ==> x@[j] == y@[j],
            bytes_less(x@, y@) == bytes_less(x@.skip(i as int), y@.skip(i as int)),
            bytes_less(y@, x@) == bytes_less(y@.skip(i as int), x@.skip(i as int)),
        decreases x@.len() - i,
    {
        assert(x@.skip(i as int)[0] == x@[i as int]);
        assert(y@.skip(i as int)[0] == y@[i as int]);
        if x[i] < y[i] {
            return Standing::Before;
        }
        if y[i] < x[i] {
            return Standing::After;
        }
        assert(x@.skip(i as int).skip(1) =~= x@.skip(i + 1));
        assert(y@.skip(i as int).skip(1) =~= y@.skip(i + 1));
        i = i + 1;
    }
    if i < y.len() {
        Standing::Before
    } else if i < x.len() {
        Standing::After
    } else {
        assert(x@ =~= y@);
        Standing::Same
    }
}

pub proof fn lemma_bytes_less_irreflexive(a: Seq<u8>)
    ensures
        !bytes_less(a, a),
    decreases a.len(),
{
    if a.len() > 0 {
        lemma_bytes_less_irreflexive(a.skip(1));
    }
}

pub proof fn lemma_bytes_less_transitive(a: Seq<u8>, b: Seq<u8>, c: Seq<u8>)
    requires
        bytes_less(a, b),
        bytes_less(b, c),
    ensures
        bytes_less(a, c),
    decreases a.len(),
{
    if a.len() > 0 && a[0] == b[0] && b[0] == c[0] {
        lemma_bytes_less_transitive(a.skip(1), b.skip(1), c.skip(1));
    }
}

/// No text comes before itself.
pub proof fn text_order_is_irreflexive(a: Seq<char>)
    ensures
        !text_less(a, a),
{
    lemma_bytes_less_irreflexive(vstd::utf8::encode_utf8(a));
}

/// What comes before a text comes before what comes after it.
pub proof fn text_order_is_transitive(a: Seq<char>, b: Seq<char>, c: Seq<char>)
    requires
        text_less(a, b),
        text_less(b, c),
    ensures
        text_less(a, c),
{
    lemma_bytes_less_transitive(
        vstd::utf8::encode_utf8(a),
        vstd::utf8::encode_utf8(b),
        vstd::utf8::encode_utf8(c),
    );
}

/// A number in decimal ends with the digit of its remainder by ten, behind what
/// the rest of it is in decimal, of which nothing is written where it is zero.
pub proof fn decimal_ends_with_the_last_digit(n: nat)
    ensures
        decimal(n).len() > 0,
        decimal(n).last() as int == '0' as int + n % 10,
        n < 10 ==> decimal(n).len() == 1,
        n >= 10 ==> decimal(n).drop_last() == decimal(n / 10),
{
    lemma_decimal(n);
    if n >= 10 {
        assert(decimal(n).drop_last() =~= decimal(n / 10));
    }
}

/// Digits stand for ten times what those before the last stand for, and the last.
pub proof fn digits_have_their_places(s: Seq<char>, c: char)
    requires
        '0' <= c && c <= '9',
    ensures
        digits_value(Seq::empty()) == 0,
        digits_value(s.push(c)) == 10 * digits_value(s) + (c as int - '0' as int),
{
    assert(s.push(c).drop_last() =~= s);
}

/// The last hexadecimal digit is that of the remainder by sixteen, behind the
/// digits of the rest.
pub proof fn hexadecimal_ends_with_the_last_digit(n: nat, width: nat)
    ensures
        hexadecimal(n, width).len() == width,
        width > 0 ==> hexadecimal(n, width).last() == "0123456789abcdef"@[(n % 16) as int],
        width > 0 ==> hexadecimal(n, width).drop_last() == hexadecimal(n / 16, (width - 1) as nat),
    decreases width,
{
    reveal_strlit("0123456789abcdef");
    if width > 0 {
        hexadecimal_ends_with_the_last_digit(n / 16, (width - 1) as nat);
        assert(hexadecimal(n, width).drop_last() =~= hexadecimal(n / 16, (width - 1) as nat));
    }
}

/// A text is read as a number where it is digits, at least one, which one `+`
/// may precede, of a value of at most `max`: that value. Where it is not, it is
/// too large if some of its digits from the first on are, and else holds what is
/// no digit; an empty text is told apart.
pub proof fn numbers_are_digits(s: Seq<char>, digits: Seq<char>, max: nat)
    requires
        s == digits && (s.len() == 0 || s[0] != '+') || s == seq!['+'] + digits,
    ensures
        parsed_unsigned(s, max) is Ok <==> digits.len() > 0 && digits_value(digits) <= max && (
        forall|i: int| 0 <= i < digits.len() ==> '0' <= #[trigger] digits[i] <= '9'),
        parsed_unsigned(s, max) is Ok ==> parsed_unsigned(s, max) == Ok::<nat, ParseIntError>(
            digits_value(digits),
        ),
        parsed_unsigned(s, max) == Err::<nat, ParseIntError>(ParseIntError::Empty) <==> s.len()
            == 0,
        parsed_unsigned(s, max) == Err::<nat, ParseIntError>(ParseIntError::PosOverflow) <==> exists|
            k: int,
        |
            0 < k <= digits.len() && digits_value(#[trigger] digits.take(k)) > max && (forall|i: int|
                0 <= i < k ==> '0' <= #[trigger] digits[i] <= '9'),
{
    if s.len() > 0 && s[0] == '+' {
        assert(s.skip(1) =~= digits);
    }
    let run = digit_run(digits) as int;
    lemma_digit_run_covers(digits, 0);
    lemma_run_is_longest(digits);
    assert(digits.take(digits.len() as int) =~= digits);
    assert(digits.take(0) =~= Seq::<char>::empty());
    if forall|i: int| 0 <= i < digits.len() ==> '0' <= #[trigger] digits[i] <= '9' {
        assert(run_so_far(digits, digits.len() as int));
        lemma_digit_run_covers(digits, digits.len() as int);
    } else if run == digits.len() {
        assert forall|i: int| 0 <= i < digits.len() implies '0' <= #[trigger] digits[i] <= '9' by {
            assert(is_digit(digits[i]));
        }
    }
    if digits_value(digits.take(run)) > max {
        assert forall|i: int| 0 <= i < run implies '0' <= #[trigger] digits[i] <= '9' by {
            assert(is_digit(digits[i]));
        }
        assert(0 < run);
    }
    assert forall|k: int|
        0 < k <= digits.len() && digits_value(#[trigger] digits.take(k)) > max && (forall|i: int|
            0 <= i < k ==> '0' <= #[trigger] digits[i] <= '9') implies digits_value(
        digits.take(run),
    ) > max by {
        assert(run_so_far(digits, k));
        lemma_overflow_stays(digits, k);
    }
}

/// What follows the digits that a text begins with is none.
proof fn lemma_run_is_longest(s: Seq<char>)
    ensures
        digit_run(s) <= s.len(),
        digit_run(s) < s.len() ==> !is_digit(s[digit_run(s) as int]),
    decreases s.len(),
{
    if s.len() > 0 && is_digit(s[0]) {
        lemma_run_is_longest(s.skip(1));
    }
}

/// The first byte in which two byte strings differ decides their order, and one
/// that the other begins with comes first.
pub proof fn first_difference_decides(a: Seq<u8>, b: Seq<u8>, k: int)
    requires
        0 <= k <= a.len(),
        k < b.len(),
        a.take(k) == b.take(k),
        k == a.len() || a[k] < b[k],
    ensures
        bytes_less(a, b),
        !bytes_less(b, a),
    decreases k,
{
    if k > 0 {
        assert(a[0] == a.take(k)[0]);
        assert(b[0] == b.take(k)[0]);
        assert(a.skip(1).take(k - 1) =~= a.take(k).skip(1));
        assert(b.skip(1).take(k - 1) =~= b.take(k).skip(1));
        first_difference_decides(a.skip(1), b.skip(1), k - 1);
    }
}

/// Texts are ordered as their UTF-8 bytes are: by the first that differs.
pub proof fn texts_are_ordered_by_their_bytes(a: Seq<char>, b: Seq<char>, k: int)
    requires
        ({
            let x = vstd::utf8::encode_utf8(a);
            let y = vstd::utf8::encode_utf8(b);
            0 <= k <= x.len() && k < y.len() && x.take(k) == y.take(k) && (k == x.len() || x[k]
                < y[k])
        }),
    ensures
        text_less(a, b),
        !text_less(b, a),
{
    first_difference_decides(vstd::utf8::encode_utf8(a), vstd::utf8::encode_utf8(b), k);
}

/// Of two different byte strings one comes before the other.
pub proof fn lemma_bytes_less_total(a: Seq<u8>, b: Seq<u8>)
    requires
        a != b,
    ensures
        bytes_less(a, b) || bytes_less(b, a),
    decreases a.len(),
{
    if a.len() > 0 && b.len() > 0 && a[0] == b[0] {
        if a.skip(1) == b.skip(1) {
            assert(a =~= seq![a[0]] + a.skip(1));
            assert(b =~= seq![b[0]] + b.skip(1));
        }
        lemma_bytes_less_total(a.skip(1), b.skip(1));
    } else if a.len() == 0 && b.len() == 0 {
        assert(a =~= b);
    }
}

/// Of two different texts one comes before the other.
pub proof fn text_order_is_total(a: Seq<char>, b: Seq<char>)
    requires
        a != b,
    ensures
        text_less(a, b) || text_less(b, a),
{
    vstd::utf8::encode_utf8_decode_utf8(a);
    vstd::utf8::encode_utf8_decode_utf8(b);
    lemma_bytes_less_total(vstd::utf8::encode_utf8(a), vstd::utf8::encode_utf8(b));
}

} // verus!
