//! Text utilities: case conversion, prefix trimming, decimal numbers.

use vstd::prelude::*;

verus! {

/// Whether a character beyond ASCII has the Unicode `Uppercase` property, as
/// `char::is_uppercase` reports it.
pub uninterp spec fn non_ascii_uppercase(c: char) -> bool;

/// Whether a character has the Unicode `Uppercase` property: among ASCII characters
/// exactly `'A'..='Z'` have it.
pub open spec fn unicode_uppercase(c: char) -> bool {
    if (c as u32) < 128 {
        'A' <= c && c <= 'Z'
    } else {
        non_ascii_uppercase(c)
    }
}

/// Calls `char::is_uppercase`. Claimed: the result is `unicode_uppercase(c)`; for ASCII
/// that is `'A'..='Z'`, beyond ASCII it is the name `non_ascii_uppercase`.
#[verifier::external_body]
fn is_uppercase(c: char) -> (r: bool)
    ensures
        r == unicode_uppercase(c),
        (c as u32) >= 128 ==> r == non_ascii_uppercase(c),
{
    c.is_uppercase()
}

/// Calls `String::push`. Claimed: the character is appended.
#[verifier::external_body]
pub(crate) fn push_char(s: &mut String, c: char)
    ensures
        final(s)@ == old(s)@.push(c),
{
    s.push(c)
}

/// Calls `str`'s `==`. Claimed: equal exactly when the character sequences are equal.
#[verifier::external_body]
pub(crate) fn str_eq(a: &str, b: &str) -> (r: bool)
    ensures
        r == (a@ == b@),
{
    a == b
}

/// ASCII lower-casing: `'A'..='Z'` move to `'a'..='z'`, everything else is unchanged.
pub open spec fn ascii_lower(c: char) -> char {
    if 'A' <= c && c <= 'Z' {
        ((c as u32) + 32) as char
    } else {
        c
    }
}

/// `char::to_ascii_lowercase`.
pub fn ascii_lowercase(c: char) -> (r: char)
    ensures
        r == ascii_lower(c),
{
    if 'A' <= c && c <= 'Z' {
        let n: u32 = c as u32;
        let b: u8 = c as u8;
        assert(b == n) by (bit_vector)
            requires 65 <= n <= 90, b == n as u8;
        (b + 32) as char
    } else {
        c
    }
}

/// What one input character becomes; `first` tells whether it opens the text.
pub open spec fn snake_piece(c: char, first: bool) -> Seq<char> {
    if unicode_uppercase(c) {
        if first {
            seq![ascii_lower(c)]
        } else {
            seq!['_', ascii_lower(c)]
        }
    } else {
        seq![c]
    }
}

/// PascalCase to snake_case: every uppercase character is lower-cased (ASCII-wise) and,
/// unless it is the first character, preceded by an underscore.
pub open spec fn snake_case(s: Seq<char>) -> Seq<char>
    decreases s.len(),
{
    if s.len() == 0 {
        Seq::empty()
    } else {
        snake_case(s.drop_last()) + snake_piece(s.last(), s.len() == 1)
    }
}

/// Convert PascalCase to snake_case (e.g., "VideoDurationWatched" -> "video_duration_watched").
pub fn to_snake_case(s: &str) -> (r: String)
    ensures
        r@ == snake_case(s@),
{
    let mut result = String::new();
    let mut first = true;
    for c in it: s.chars()
        invariant
            it.seq() == s@,
            first == (it.index() == 0),
            result@ == snake_case(s@.take(it.index() as int)),
    {
        assert(s@.take(it.index() + 1).drop_last() == s@.take(it.index() as int));
        if is_uppercase(c) {
            if !first {
                push_char(&mut result, '_');
            }
            push_char(&mut result, ascii_lowercase(c));
        } else {
            push_char(&mut result, c);
        }
        first = false;
    }
    assert(s@.take(s@.len() as int) == s@);
    result
}

/// The character of a decimal digit.
pub open spec fn digit_char(d: nat) -> char {
    (d + 48) as char
}

/// Decimal digits of `n`, most significant first, without leading zeros.
pub open spec fn decimal(n: nat) -> Seq<char>
    decreases n,
{
    if n < 10 {
        seq![digit_char(n)]
    } else {
        decimal(n / 10).push(digit_char(n % 10))
    }
}

/// Decimal text of a signed number: a minus sign before the digits of a negative one.
pub open spec fn signed_decimal(n: int) -> Seq<char> {
    if n < 0 {
        seq!['-'] + decimal((-n) as nat)
    } else {
        decimal(n as nat)
    }
}

/// Appends the decimal digits of `n`.
fn push_decimal(out: &mut String, n: u64)
    ensures
        final(out)@ == old(out)@ + decimal(n as nat),
    decreases n,
{
    if n >= 10 {
        push_decimal(out, n / 10);
    }
    let d: u8 = (n % 10) as u8;
    push_char(out, (d + 48) as char);
    proof {
        if n >= 10 {
            assert(decimal(n as nat) == decimal((n / 10) as nat).push(digit_char((n % 10) as nat)));
        }
    }
}

/// `u64::to_string`: the decimal text of `n`.
pub fn u64_to_decimal(n: u64) -> (r: String)
    ensures
        r@ == decimal(n as nat),
{
    let mut out = String::new();
    push_decimal(&mut out, n);
    assert(out@ == Seq::<char>::empty() + decimal(n as nat));
    out
}

/// `i64::to_string`: the decimal text of `n`, with a leading minus sign when negative.
pub fn i64_to_decimal(n: i64) -> (r: String)
    ensures
        r@ == signed_decimal(n as int),
{
    let mut out = String::new();
    if n < 0 {
        push_char(&mut out, '-');
        let magnitude: u64 = if n == i64::MIN {
            9223372036854775808u64
        } else {
            (0 - n) as u64
        };
        push_decimal(&mut out, magnitude);
    } else {
        push_decimal(&mut out, n as u64);
        assert(out@ == Seq::<char>::empty() + decimal(n as nat));
    }
    out
}

/// An ASCII decimal digit.
pub open spec fn is_digit(c: char) -> bool {
    '0' <= c && c <= '9'
}

/// The number that a sequence of decimal digits spells.
pub open spec fn digits_value(s: Seq<char>) -> nat
    decreases s.len(),
{
    if s.len() == 0 {
        0
    } else {
        digits_value(s.drop_last()) * 10 + ((s.last() as u32) - 48) as nat
    }
}

/// The text after one optional leading `+`.
pub open spec fn unsigned_digits(s: Seq<char>) -> Seq<char> {
    if s.len() > 0 && s[0] == '+' {
        s.drop_first()
    } else {
        s
    }
}

/// Every character is an ASCII decimal digit.
pub open spec fn all_digits(s: Seq<char>) -> bool {
    forall|i: int| 0 <= i < s.len() ==> is_digit(#[trigger] s[i])
}

/// What `str::parse::<u64>` gives: an optional `+`, then one or more ASCII digits whose
/// value fits in a `u64`; anything else is refused.
pub open spec fn parse_u64(s: Seq<char>) -> Option<u64> {
    let digits = unsigned_digits(s);
    if digits.len() > 0 && all_digits(digits) && digits_value(digits) <= u64::MAX {
        Some(digits_value(digits) as u64)
    } else {
        None
    }
}

proof fn lemma_digits_value_prefix(s: Seq<char>, i: int)
    requires
        0 <= i < s.len(),
    ensures
        s.take(i + 1).drop_last() == s.take(i),
        s.take(i + 1).last() == s[i],
{
}

/// `str::parse::<u64>`.
pub fn parse_u64_text(s: &str) -> (r: Option<u64>)
    ensures
        r == parse_u64(s@),
{
    let mut acc: u64 = 0;
    let mut seen_any = false;
    let mut ok = true;
    let mut plus_first = false;
    let mut first = true;
    let ghost mut count: int = 0;
    let ghost digits = unsigned_digits(s@);
    for c in it: s.chars()
        invariant
            it.seq() == s@,
            digits == unsigned_digits(s@),
            plus_first == (it.index() > 0 && s@[0] == '+'),
            first == (it.index() == 0),
            count == it.index(),
            ({
                let k = if plus_first {
                    it.index() - 1
                } else {
                    it.index() as int
                };
                &&& 0 <= k <= digits.len()
                &&& seen_any == (k > 0)
                &&& ok == ((forall|j: int| 0 <= j < k ==> is_digit(#[trigger] digits[j]))
                    && digits_value(digits.take(k)) <= u64::MAX)
                &&& ok ==> acc == digits_value(digits.take(k))
            }),
    {
        let ghost k = if plus_first {
            it.index() - 1
        } else {
            it.index() as int
        };
        if first && c == '+' {
            plus_first = true;
            first = false;
            assert(digits.take(0) =~= Seq::<char>::empty());
        } else {
            proof {
                if s@.len() > 0 && s@[0] == '+' {
                    assert(digits[k] == s@[k + 1]);
                } else {
                    assert(digits[k] == s@[k]);
                }
                lemma_digits_value_prefix(digits, k);
            }
            seen_any = true;
            first = false;
            if ok {
                if '0' <= c && c <= '9' {
                    let d: u64 = ((c as u32) - 48) as u64;
                    match acc.checked_mul(10) {
                        Some(t) => match t.checked_add(d) {
                            Some(v) => {
                                acc = v;
                            },
                            None => {
                                ok = false;
                            },
                        },
                        None => {
                            ok = false;
                            proof {
                                assert(digits_value(digits.take(k + 1)) >= acc * 10);
                            }
                        },
                    }
                } else {
                    ok = false;
                }
            } else {
                proof {
                    if (forall|j: int| 0 <= j < k + 1 ==> is_digit(#[trigger] digits[j])) {
                        assert(forall|j: int| 0 <= j < k ==> is_digit(#[trigger] digits[j]));
                        assert(digits_value(digits.take(k + 1)) >= digits_value(digits.take(k)));
                    }
                }
            }
        }
        proof {
            count = count + 1;
        }
    }
    proof {
        assert(count == s@.len());
        let k = if plus_first {
            s@.len() - 1
        } else {
            s@.len() as int
        };
        assert(k == digits.len());
        assert(digits.take(k) == digits);
        assert(seen_any == (digits.len() > 0));
    }
    if seen_any && ok {
        assert(digits.len() > 0);
        assert(digits_value(digits) == acc);
        assert(parse_u64(s@) == Some(acc));
        Some(acc)
    } else {
        assert(parse_u64(s@) is None);
        None
    }
}

/// Every decimal text parses back to its number.
pub proof fn law_decimal_parses_back(n: nat)
    requires
        n <= u64::MAX,
    ensures
        parse_u64(decimal(n)) == Some(n as u64),
    decreases n,
{
    lemma_decimal_digits(n);
}

proof fn lemma_decimal_digits(n: nat)
    ensures
        decimal(n).len() > 0,
        forall|i: int| 0 <= i < decimal(n).len() ==> is_digit(#[trigger] decimal(n)[i]),
        digits_value(decimal(n)) == n,
    decreases n,
{
    assert(digit_char(n % 10) as u32 == n % 10 + 48);
    if n < 10 {
        assert(decimal(n).drop_last() =~= Seq::<char>::empty());
        assert(digits_value(Seq::<char>::empty()) == 0);
        assert(digits_value(decimal(n)) == digits_value(decimal(n).drop_last()) * 10 + (
        (decimal(n).last() as u32) - 48) as nat);
    }
    if n >= 10 {
        lemma_decimal_digits(n / 10);
        let d = decimal(n / 10).push(digit_char(n % 10));
        assert(d.drop_last() == decimal(n / 10));
        assert(d.last() == digit_char(n % 10));
        assert((n / 10) * 10 + n % 10 == n);
        assert(decimal(n) == d);
        assert(digits_value(d) == digits_value(d.drop_last()) * 10 + ((d.last() as u32) - 48) as nat);
        assert forall|i: int| 0 <= i < d.len() implies is_digit(#[trigger] d[i]) by {
            if i < d.len() - 1 {
                assert(d[i] == decimal(n / 10)[i]);
            }
        }
    }
}

/// Visible ASCII or a tab: the bytes that an HTTP header value may hold to be read as text.
pub open spec fn header_text_byte(b: u8) -> bool {
    (32 <= b && b < 127) || b == 9
}

/// The header bytes that may be read as text are exactly the visible ASCII bytes
/// (space to tilde) and the tab.
pub proof fn law_header_text_bytes(b: u8)
    ensures
        header_text_byte(b) <==> ((0x20 <= b && b <= 0x7e) || b == 0x09),
{
}

/// `HeaderValue::to_str`: the text of a header value whose bytes are all visible ASCII or
/// tabs, else nothing.
pub fn header_value_text(bytes: &[u8]) -> (r: Option<String>)
    ensures
        match r {
            Some(t) => (forall|i: int| 0 <= i < bytes@.len() ==> header_text_byte(
                #[trigger] bytes@[i],
            )) && t@ == bytes@.map_values(|b: u8| b as char),
            None => exists|i: int| 0 <= i < bytes@.len() && !header_text_byte(#[trigger] bytes@[i]),
        },
{
    let mut out = String::new();
    let mut i: usize = 0;
    while i < bytes.len()
        invariant
            i <= bytes@.len(),
            forall|j: int| 0 <= j < i ==> header_text_byte(#[trigger] bytes@[j]),
            out@ == bytes@.take(i as int).map_values(|b: u8| b as char),
        decreases bytes@.len() - i,
    {
        let b = bytes[i];
        if !((32 <= b && b < 127) || b == 9) {
            return None;
        }
        push_char(&mut out, b as char);
        assert(bytes@.take(i + 1) == bytes@.take(i as int).push(b));
        i = i + 1;
    }
    assert(bytes@.take(bytes@.len() as int) == bytes@);
    Some(out)
}

/// `str::trim_start_matches` with a non-empty text pattern: the pattern is removed from the
/// front as many times as it occurs there.
pub open spec fn trim_start_matches(s: Seq<char>, pattern: Seq<char>) -> Seq<char>
    decreases s.len(),
{
    if pattern.len() > 0 && s.len() >= pattern.len() && s.take(pattern.len() as int) == pattern {
        trim_start_matches(s.skip(pattern.len() as int), pattern)
    } else {
        s
    }
}

/// Characters that an uppercase character after the first position would turn into two:
/// uppercase characters beyond ASCII, which ASCII lower-casing leaves as they are.
pub open spec fn stays_uppercase(c: char) -> bool {
    (c as u32) >= 128 && non_ascii_uppercase(c)
}

proof fn lemma_snake_case_len(s: Seq<char>)
    ensures
        snake_case(s).len() >= s.len(),
        s.len() > 0 ==> snake_case(s).len() > 0,
    decreases s.len(),
{
    if s.len() > 0 {
        lemma_snake_case_len(s.drop_last());
    }
}

/// Text without uppercase characters is already snake_case: the conversion leaves it as is.
pub proof fn law_snake_case_keeps_lowercase(s: Seq<char>)
    requires
        forall|i: int| 0 <= i < s.len() ==> !unicode_uppercase(#[trigger] s[i]),
    ensures
        snake_case(s) == s,
    decreases s.len(),
{
    if s.len() > 0 {
        law_snake_case_keeps_lowercase(s.drop_last());
        assert(snake_case(s.drop_last()) + seq![s.last()] =~= s);
    }
}

/// The snake_case form holds no ASCII uppercase letter.
pub proof fn law_snake_case_has_no_ascii_uppercase(s: Seq<char>)
    ensures
        forall|i: int|
            0 <= i < snake_case(s).len() ==> !('A' <= #[trigger] snake_case(s)[i] && snake_case(
                s,
            )[i] <= 'Z'),
    decreases s.len(),
{
    if s.len() > 0 {
        law_snake_case_has_no_ascii_uppercase(s.drop_last());
        let prev = snake_case(s.drop_last());
        let piece = snake_piece(s.last(), s.len() == 1);
        assert(snake_case(s) == prev + piece);
        assert forall|i: int| 0 <= i < snake_case(s).len() implies !('A' <= #[trigger] snake_case(
            s,
        )[i] && snake_case(s)[i] <= 'Z') by {
            if i < prev.len() {
                assert(snake_case(s)[i] == prev[i]);
            } else {
                assert(snake_case(s)[i] == piece[i - prev.len()]);
            }
        }
    }
}

/// Every character of the snake_case form that is uppercase came through unchanged from a
/// character that stays uppercase; only the first output character can be one when no
/// such character follows the first input position.
proof fn lemma_snake_case_uppercase_only_first(s: Seq<char>)
    requires
        forall|i: int| 0 < i < s.len() ==> !stays_uppercase(#[trigger] s[i]),
    ensures
        forall|i: int|
            0 < i < snake_case(s).len() ==> !unicode_uppercase(#[trigger] snake_case(s)[i]),
        s.len() > 0 ==> snake_case(s)[0] == (if unicode_uppercase(s[0]) {
            ascii_lower(s[0])
        } else {
            s[0]
        }),
    decreases s.len(),
{
    if s.len() > 0 {
        let init = s.drop_last();
        assert forall|i: int| 0 < i < init.len() implies !stays_uppercase(#[trigger] init[i]) by {
            assert(init[i] == s[i]);
        }
        lemma_snake_case_uppercase_only_first(init);
        lemma_snake_case_len(init);
        let prev = snake_case(init);
        let piece = snake_piece(s.last(), s.len() == 1);
        assert(snake_case(s) == prev + piece);
        let c = s.last();
        assert(unicode_uppercase(c) ==> (c as u32) < 128 || s.len() == 1);
        assert forall|i: int| 0 < i < snake_case(s).len() implies !unicode_uppercase(
            #[trigger] snake_case(s)[i],
        ) by {
            if i < prev.len() {
                assert(snake_case(s)[i] == prev[i]);
            } else {
                let d = snake_case(s)[i];
                assert(d == piece[i - prev.len()]);
                if unicode_uppercase(c) && s.len() > 1 {
                    assert(d == '_' || d == ascii_lower(c));
                    assert(('_' as u32) == 95);
                    assert(ascii_lower(c) as u32 == c as u32 + 32);
                }
            }
        }
        if s.len() > 1 {
            assert(init.len() > 0);
            assert(snake_case(s)[0] == prev[0]);
            assert(init[0] == s[0]);
        } else {
            assert(init.len() == 0);
            assert(prev.len() == 0);
        }
    }
}

/// Converting twice converts once, unless an uppercase character beyond ASCII (which ASCII
/// lower-casing leaves uppercase) follows the first position.
pub proof fn law_snake_case_idempotent(s: Seq<char>)
    requires
        forall|i: int| 0 < i < s.len() ==> !stays_uppercase(#[trigger] s[i]),
    ensures
        snake_case(snake_case(s)) == snake_case(s),
{
    lemma_snake_case_uppercase_only_first(s);
    let t = snake_case(s);
    if t.len() == 0 {
        assert(snake_case(t) == t);
    } else {
        lemma_snake_case_len(s);
        lemma_snake_case_of_concat_lowercase(t);
    }
}

/// When nothing after the first character is uppercase, the conversion only touches that
/// character, and converting the result again leaves it as is.
proof fn lemma_snake_case_of_concat_lowercase(t: Seq<char>)
    requires
        t.len() > 0,
        forall|i: int| 0 < i < t.len() ==> !unicode_uppercase(#[trigger] t[i]),
        unicode_uppercase(t[0]) ==> ascii_lower(t[0]) == t[0],
    ensures
        snake_case(t) == t,
    decreases t.len(),
{
    if t.len() == 1 {
        assert(t.drop_last() =~= Seq::<char>::empty());
        assert(snake_case(t.drop_last()) =~= Seq::<char>::empty());
        assert(t.last() == t[0]);
        assert(snake_case(t) == snake_case(t.drop_last()) + snake_piece(t[0], true));
        if unicode_uppercase(t[0]) {
            assert(snake_case(t) =~= seq![ascii_lower(t[0])]);
        } else {
            assert(snake_case(t) =~= seq![t[0]]);
        }
        assert(snake_case(t) =~= t);
    } else {
        let init = t.drop_last();
        assert forall|i: int| 0 < i < init.len() implies !unicode_uppercase(#[trigger] init[i]) by {
            assert(init[i] == t[i]);
        }
        lemma_snake_case_of_concat_lowercase(init);
        assert(!unicode_uppercase(t[t.len() - 1]));
        assert(snake_case(t) =~= init + seq![t.last()]);
        assert(init + seq![t.last()] =~= t);
    }
}

/// An uppercase character beyond ASCII comes through the conversion unchanged.
proof fn lemma_snake_case_keeps_stays_uppercase(x: Seq<char>, i: int)
    requires
        0 <= i < x.len(),
        stays_uppercase(x[i]),
    ensures
        exists|j: int| 0 <= j < snake_case(x).len() && snake_case(x)[j] == x[i],
    decreases x.len(),
{
    let init = x.drop_last();
    let prev = snake_case(init);
    let piece = snake_piece(x.last(), x.len() == 1);
    assert(snake_case(x) == prev + piece);
    if i == x.len() - 1 {
        let c = x[i];
        assert(ascii_lower(c) == c);
        let j = snake_case(x).len() - 1;
        assert(snake_case(x)[j] == piece[piece.len() - 1]);
    } else {
        assert(init[i] == x[i]);
        lemma_snake_case_keeps_stays_uppercase(init, i);
        let j = choose|j: int| 0 <= j < prev.len() && prev[j] == init[i];
        assert(snake_case(x)[j] == prev[j]);
    }
}

/// Converting the snake_case form again gives a text without uppercase characters exactly
/// when the snake_case form already is that text.
pub proof fn law_snake_case_again_matches_same_lowercase(e: Seq<char>, t: Seq<char>)
    requires
        forall|i: int| 0 <= i < t.len() ==> !unicode_uppercase(#[trigger] t[i]),
    ensures
        (snake_case(snake_case(e)) == t) == (snake_case(e) == t),
{
    let x = snake_case(e);
    law_snake_case_has_no_ascii_uppercase(e);
    if forall|i: int| 0 <= i < x.len() ==> !unicode_uppercase(#[trigger] x[i]) {
        law_snake_case_keeps_lowercase(x);
    } else {
        let i = choose|i: int| 0 <= i < x.len() && unicode_uppercase(#[trigger] x[i]);
        assert(!('A' <= x[i] && x[i] <= 'Z'));
        assert(stays_uppercase(x[i]));
        lemma_snake_case_keeps_stays_uppercase(x, i);
        let j = choose|j: int| 0 <= j < snake_case(x).len() && snake_case(x)[j] == x[i];
        if snake_case(x) == t {
            assert(!unicode_uppercase(t[j]));
        }
        if x == t {
            assert(!unicode_uppercase(t[i]));
        }
    }
}

/// The separator that the conversion puts between two parts: an underscore when the
/// second part starts with an uppercase character.
pub open spec fn snake_joint(b: Seq<char>) -> Seq<char> {
    if b.len() > 0 && unicode_uppercase(b[0]) {
        seq!['_']
    } else {
        Seq::empty()
    }
}

/// The conversion of a concatenation with a non-empty first part is the conversion of the
/// first part, an underscore when the second part starts with an uppercase character,
/// and the conversion of the second part.
pub proof fn law_snake_case_of_concat(a: Seq<char>, b: Seq<char>)
    requires
        a.len() > 0,
    ensures
        snake_case(a + b) == snake_case(a) + snake_joint(b) + snake_case(b),
    decreases b.len(),
{
    if b.len() == 0 {
        assert(a + b =~= a);
        assert(snake_case(b) =~= Seq::<char>::empty());
        assert(snake_case(a) + snake_joint(b) + snake_case(b) =~= snake_case(a));
    } else {
        let init = b.drop_last();
        assert((a + b).drop_last() =~= a + init);
        assert((a + b).last() == b.last());
        assert(snake_case(a + b) == snake_case(a + init) + snake_piece(b.last(), false));
        if b.len() == 1 {
            assert(init =~= Seq::<char>::empty());
            assert(a + init =~= a);
            assert(snake_case(init) =~= Seq::<char>::empty());
            assert(snake_case(b) == snake_case(init) + snake_piece(b.last(), true));
            assert(b[0] == b.last());
            if unicode_uppercase(b[0]) {
                assert(snake_case(a + b) =~= snake_case(a) + snake_joint(b) + snake_case(b));
            } else {
                assert(snake_case(a + b) =~= snake_case(a) + snake_joint(b) + snake_case(b));
            }
        } else {
            law_snake_case_of_concat(a, init);
            assert(init[0] == b[0]);
            assert(snake_joint(init) == snake_joint(b));
            assert(snake_case(b) == snake_case(init) + snake_piece(b.last(), false));
            assert(snake_case(a + b) =~= snake_case(a) + snake_joint(b) + snake_case(b));
        }
    }
}

/// The characters of a text, in order.
pub fn chars_of(s: &str) -> (r: Vec<char>)
    ensures
        r@ == s@,
{
    let mut out: Vec<char> = Vec::new();
    for c in it: s.chars()
        invariant
            it.seq() == s@,
            out@ == s@.take(it.index() as int),
    {
        assert(s@.take(it.index() + 1) == s@.take(it.index() as int).push(c));
        out.push(c);
    }
    assert(s@.take(s@.len() as int) == s@);
    out
}

/// Whether `pattern` occurs in `chars` at position `pos`.
fn occurs_at(chars: &Vec<char>, pos: usize, pattern: &Vec<char>) -> (r: bool)
    requires
        pos + pattern@.len() <= chars@.len(),
    ensures
        r == (chars@.subrange(pos as int, pos + pattern@.len()) == pattern@),
{
    let clen = chars.len();
    let mut j: usize = 0;
    while j < pattern.len()
        invariant
            clen == chars@.len(),
            pos + pattern@.len() <= chars@.len(),
            j <= pattern@.len(),
            forall|k: int| 0 <= k < j ==> chars@[pos + k] == pattern@[k],
        decreases pattern@.len() - j,
    {
        if chars[pos + j] != pattern[j] {
            assert(chars@.subrange(pos as int, pos + pattern@.len())[j as int] != pattern@[j as int]);
            return false;
        }
        j = j + 1;
    }
    assert(chars@.subrange(pos as int, pos + pattern@.len()) =~= pattern@);
    true
}

/// `str::trim_start_matches` with a text pattern.
pub fn trim_start_matches_text(s: &str, pattern: &str) -> (r: String)
    ensures
        r@ == trim_start_matches(s@, pattern@),
{
    let chars = chars_of(s);
    let pat = chars_of(pattern);
    let n = chars.len();
    let m = pat.len();
    let mut pos: usize = 0;
    assert(s@.skip(0) == s@);
    while m > 0 && m <= n - pos && occurs_at(&chars, pos, &pat)
        invariant
            chars@ == s@,
            pat@ == pattern@,
            n == chars@.len(),
            m == pat@.len(),
            pos <= n,
            trim_start_matches(s@, pattern@) == trim_start_matches(s@.skip(pos as int), pattern@),
        decreases n - pos,
    {
        proof {
            let t = s@.skip(pos as int);
            assert(t.take(m as int) == s@.subrange(pos as int, pos + m));
            assert(t.skip(m as int) == s@.skip(pos + m));
        }
        pos = pos + m;
    }
    proof {
        let t = s@.skip(pos as int);
        if m > 0 && m <= n - pos {
            assert(t.take(m as int) == s@.subrange(pos as int, pos + m));
        }
    }
    let mut out = String::new();
    let mut i: usize = pos;
    while i < n
        invariant
            chars@ == s@,
            n == chars@.len(),
            pos <= i <= n,
            out@ == s@.subrange(pos as int, i as int),
        decreases n - i,
    {
        push_char(&mut out, chars[i]);
        assert(s@.subrange(pos as int, i + 1) == s@.subrange(pos as int, i as int).push(s@[i as int]));
        i = i + 1;
    }
    assert(s@.subrange(pos as int, n as int) == s@.skip(pos as int));
    out
}

/// After trimming, the text no longer starts with the (non-empty) pattern.
pub proof fn law_trim_leaves_no_prefix(s: Seq<char>, pattern: Seq<char>)
    requires
        pattern.len() > 0,
    ensures
        !(trim_start_matches(s, pattern).len() >= pattern.len() && trim_start_matches(
            s,
            pattern,
        ).take(pattern.len() as int) == pattern),
    decreases s.len(),
{
    if s.len() >= pattern.len() && s.take(pattern.len() as int) == pattern {
        law_trim_leaves_no_prefix(s.skip(pattern.len() as int), pattern);
    }
}

/// Text that starts with the pattern trims to what trimming the rest gives.
pub proof fn law_trim_strips_leading_pattern(rest: Seq<char>, pattern: Seq<char>)
    requires
        pattern.len() > 0,
    ensures
        trim_start_matches(pattern + rest, pattern) == trim_start_matches(rest, pattern),
{
    let s = pattern + rest;
    assert(s.take(pattern.len() as int) =~= pattern);
    assert(s.skip(pattern.len() as int) =~= rest);
}

/// Trimming gives the text back when it does not start with the pattern.
pub proof fn law_trim_keeps_other_text(s: Seq<char>, pattern: Seq<char>)
    requires
        !(s.len() >= pattern.len() && s.take(pattern.len() as int) == pattern),
    ensures
        trim_start_matches(s, pattern) == s,
{
}

} // verus!
