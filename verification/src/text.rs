//! Characters, decimal numbers and whitespace-separated words.

use vstd::prelude::*;
use vstd::string::*;

verus! {

/// Appends one character: `String::push`, which its documentation says
/// appends the given `char` to the end of the string.
#[verifier::external_body]
pub(crate) fn push_char(s: &mut String, c: char)
    ensures
        final(s)@ == old(s)@.push(c),
{
    s.push(c);
}

/// An ASCII decimal digit.
pub open spec fn is_digit(c: char) -> bool {
    '0' <= c && c <= '9'
}

/// The value of an ASCII decimal digit.
pub open spec fn digit_value(c: char) -> int {
    c as int - '0' as int
}

/// The character of a decimal digit `d` (0 to 9).
pub open spec fn digit_char(d: int) -> char {
    (d + '0' as int) as char
}

/// Every character is an ASCII decimal digit.
pub open spec fn all_digits(t: Seq<char>) -> bool {
    forall|i: int| 0 <= i < t.len() ==> is_digit(#[trigger] t[i])
}

/// The number written by a sequence of decimal digits, most significant first.
pub open spec fn digits_value(t: Seq<char>) -> nat
    decreases t.len(),
{
    if t.len() == 0 {
        0
    } else {
        (digits_value(t.drop_last()) * 10 + digit_value(t.last())) as nat
    }
}

/// The shortest decimal writing of `n`: no leading zero unless `n` is 0.
pub open spec fn decimal(n: nat) -> Seq<char>
    decreases n,
{
    if n < 10 {
        seq![digit_char(n as int)]
    } else {
        decimal(n / 10).push(digit_char((n % 10) as int))
    }
}

/// The character of a decimal digit.
pub fn digit_to_char(d: u8) -> (c: char)
    requires
        d < 10,
    ensures
        c == digit_char(d as int),
        is_digit(c),
        digit_value(c) == d,
{
    (d + 48) as char
}

/// Whether a character is an ASCII decimal digit.
pub fn char_is_digit(c: char) -> (b: bool)
    ensures
        b == is_digit(c),
{
    '0' <= c && c <= '9'
}


/// Facts about the shortest decimal writing of a number: it is made of digits,
/// has no leading zero, names the number, and is one to three characters long
/// below 1000.
pub proof fn lemma_decimal(n: nat)
    ensures
        all_digits(decimal(n)),
        decimal(n).len() >= 1,
        digits_value(decimal(n)) == n,
        decimal(n).len() > 1 ==> decimal(n)[0] != '0',
        (decimal(n).len() == 1) == (n < 10),
        n < 100 ==> decimal(n).len() <= 2,
        n < 1000 ==> decimal(n).len() <= 3,
    decreases n,
{
    if n < 10 {
        assert(digits_value(decimal(n).drop_last()) == 0) by {
            assert(decimal(n).drop_last() =~= Seq::<char>::empty());
        }
    } else {
        lemma_decimal(n / 10);
        let t = decimal(n);
        assert(t.drop_last() =~= decimal(n / 10));
        assert forall|i: int| 0 <= i < t.len() implies is_digit(#[trigger] t[i]) by {
            if i < t.len() - 1 {
                assert(t[i] == decimal(n / 10)[i]);
            }
        }
        assert(t[0] == decimal(n / 10)[0]);
        if n / 10 < 10 {
            assert(n / 10 >= 1);
        }
    }
}

/// A nonempty run of digits with no leading zero names a positive number
/// when it starts with a nonzero digit.
proof fn lemma_digits_value_positive(t: Seq<char>)
    requires
        t.len() >= 1,
        all_digits(t),
        t[0] != '0',
    ensures
        digits_value(t) >= 1,
        t.len() >= 2 ==> digits_value(t) >= 10,
    decreases t.len(),
{
    if t.len() >= 2 {
        let p = t.drop_last();
        assert(p[0] == t[0]);
        assert(all_digits(p)) by {
            assert forall|i: int| 0 <= i < p.len() implies is_digit(#[trigger] p[i]) by {
                assert(p[i] == t[i]);
            }
        }
        lemma_digits_value_positive(p);
    }
}

/// A nonempty run of digits without a leading zero is the shortest decimal
/// writing of the number it names.
pub proof fn lemma_decimal_of_digits(t: Seq<char>)
    requires
        t.len() >= 1,
        all_digits(t),
        t.len() > 1 ==> t[0] != '0',
    ensures
        decimal(digits_value(t)) == t,
    decreases t.len(),
{
    let v = digits_value(t);
    let c = t.last();
    assert(is_digit(t[t.len() - 1]));
    if t.len() == 1 {
        assert(t.drop_last() =~= Seq::<char>::empty());
        assert(digits_value(t.drop_last()) == 0);
        assert(c as int >= '0' as int);
        assert(v == digit_value(c));
        assert(decimal(v) =~= t);
    } else {
        let p = t.drop_last();
        assert(p[0] == t[0]);
        assert(all_digits(p)) by {
            assert forall|i: int| 0 <= i < p.len() implies is_digit(#[trigger] p[i]) by {
                assert(p[i] == t[i]);
            }
        }
        lemma_decimal_of_digits(p);
        lemma_digits_value_positive(p);
        let pv = digits_value(p);
        assert(v == pv * 10 + digit_value(c));
        assert(v / 10 == pv && v % 10 == digit_value(c)) by (nonlinear_arith)
            requires
                v == pv * 10 + digit_value(c),
                0 <= digit_value(c) < 10,
        ;
        assert(decimal(v) == decimal(pv).push(digit_char(digit_value(c))));
        assert(decimal(v) =~= t);
    }
}

/// Appends the shortest decimal writing of `n`.
pub fn push_decimal(s: &mut String, n: u64)
    ensures
        final(s)@ == old(s)@ + decimal(n as nat),
    decreases n,
{
    if n >= 10 {
        push_decimal(s, n / 10);
    }
    push_char(s, digit_to_char((n % 10) as u8));
    proof {
        if n >= 10 {
            assert(decimal(n as nat) == decimal((n / 10) as nat).push(digit_char((n % 10) as int)));
        }
        assert(final(s)@ =~= old(s)@ + decimal(n as nat));
    }
}

/// The digits that an unsigned number's text holds: an optional leading `+`
/// is dropped.
pub open spec fn unsigned_digits(s: Seq<char>) -> Seq<char> {
    if s.len() > 0 && s[0] == '+' {
        s.drop_first()
    } else {
        s
    }
}

/// Why a text is not an unsigned integer.
#[derive(Clone, Copy, Debug, PartialEq, Eq, Structural)]
pub enum IntErrorKind {
    /// The text is empty.
    Empty,
    /// A character is not a decimal digit, or the text is a lone sign.
    InvalidDigit,
    /// The number is larger than allowed.
    PosOverflow,
}

impl IntErrorKind {
    /// The sentence that describes the error.
    pub fn description(&self) -> (s: String)
        ensures
            s@ == match *self {
                IntErrorKind::Empty => "cannot parse integer from empty string"@,
                IntErrorKind::InvalidDigit => "invalid digit found in string"@,
                IntErrorKind::PosOverflow => "number too large to fit in target type"@,
            },
    {
        let mut s = String::new();
        match *self {
            IntErrorKind::Empty => s.append("cannot parse integer from empty string"),
            IntErrorKind::InvalidDigit => s.append("invalid digit found in string"),
            IntErrorKind::PosOverflow => s.append("number too large to fit in target type"),
        }
        s
    }
}

/// Reads digits from the left, accumulating their value: the first
/// character that is not a digit, or the first digit that takes the value
/// above `max`, ends the reading with an error.
pub open spec fn scan_digits(t: Seq<char>, max: nat) -> Result<nat, IntErrorKind>
    decreases t.len(),
{
    if t.len() == 0 {
        Ok(0)
    } else {
        match scan_digits(t.drop_last(), max) {
            Err(e) => Err(e),
            Ok(v) => if !is_digit(t.last()) {
                Err(IntErrorKind::InvalidDigit)
            } else if v * 10 + digit_value(t.last()) > max {
                Err(IntErrorKind::PosOverflow)
            } else {
                Ok((v * 10 + digit_value(t.last())) as nat)
            },
        }
    }
}

/// The number that `s` writes as an unsigned integer no greater than `max`:
/// an optional `+` followed by decimal digits (leading zeros allowed). An
/// empty text, a lone sign, the first non-digit and the first digit that
/// passes `max` each give their error.
pub open spec fn spec_parse_unsigned(s: Seq<char>, max: nat) -> Result<nat, IntErrorKind> {
    if s.len() == 0 {
        Err(IntErrorKind::Empty)
    } else if s.len() == 1 && (s[0] == '+' || s[0] == '-') {
        Err(IntErrorKind::InvalidDigit)
    } else {
        scan_digits(unsigned_digits(s), max)
    }
}

/// An error met while reading a prefix is the error of the whole reading.
proof fn lemma_scan_error_extends(t: Seq<char>, j: int, max: nat)
    requires
        0 <= j <= t.len(),
        scan_digits(t.take(j), max) is Err,
    ensures
        scan_digits(t, max) == scan_digits(t.take(j), max),
    decreases t.len() - j,
{
    if j < t.len() {
        assert(t.take(j + 1).drop_last() =~= t.take(j));
        lemma_scan_error_extends(t, j + 1, max);
    } else {
        assert(t.take(j) =~= t);
    }
}

/// A successful reading names the number its digits write.
pub proof fn lemma_scan_value(t: Seq<char>, max: nat)
    ensures
        scan_digits(t, max) matches Ok(v) ==> all_digits(t) && v == digits_value(t) && v <= max,
    decreases t.len(),
{
    if t.len() > 0 {
        lemma_scan_value(t.drop_last(), max);
        if scan_digits(t, max) is Ok {
            let p = t.drop_last();
            assert forall|i: int| 0 <= i < t.len() implies is_digit(#[trigger] t[i]) by {
                if i < p.len() {
                    assert(p[i] == t[i]);
                }
            }
        }
    }
}

/// Parses an unsigned integer no greater than `max`, as the standard
/// library's `FromStr` for unsigned integers does, errors included.
pub fn parse_unsigned(s: &str, max: u64) -> (res: Result<u64, IntErrorKind>)
    ensures
        match spec_parse_unsigned(s@, max as nat) {
            Ok(v) => res == Ok::<u64, IntErrorKind>(v as u64),
            Err(e) => res == Err::<u64, IntErrorKind>(e),
        },
{
    let len = s.unicode_len();
    if len == 0 {
        return Err(IntErrorKind::Empty);
    }
    let first = s.get_char(0);
    if len == 1 && (first == '+' || first == '-') {
        return Err(IntErrorKind::InvalidDigit);
    }
    let mut start: usize = 0;
    if first == '+' {
        start = 1;
    }
    let ghost t = unsigned_digits(s@);
    assert(t =~= s@.subrange(start as int, len as int));
    assert(t.take(0) =~= Seq::<char>::empty());
    let mut i: usize = start;
    let mut v: u64 = 0;
    while i < len
        invariant
            start <= i <= len,
            len == s@.len(),
            t =~= s@.subrange(start as int, len as int),
            t == unsigned_digits(s@),
            scan_digits(t.take(i - start), max as nat) == Ok::<nat, IntErrorKind>(v as nat),
        decreases len - i,
    {
        let c = s.get_char(i);
        let ghost k: int = i - start;
        assert(t.take(k + 1).drop_last() =~= t.take(k));
        assert(t.take(k + 1).last() == c);
        if !char_is_digit(c) {
            proof {
                lemma_scan_error_extends(t, k + 1, max as nat);
            }
            return Err(IntErrorKind::InvalidDigit);
        }
        let d: u64 = (c as u32 - 48) as u64;
        assert(d == digit_value(c));
        let next = match v.checked_mul(10) {
            Some(m) => m.checked_add(d),
            None => None,
        };
        match next {
            Some(x) => {
                if x > max {
                    proof {
                        lemma_scan_error_extends(t, k + 1, max as nat);
                    }
                    return Err(IntErrorKind::PosOverflow);
                }
                v = x;
            },
            None => {
                proof {
                    lemma_scan_error_extends(t, k + 1, max as nat);
                }
                return Err(IntErrorKind::PosOverflow);
            },
        }
        i = i + 1;
    }
    assert(t.take(len - start) =~= t);
    Ok(v)
}

/// Whether `c` has the Unicode `White_Space` property.
pub open spec fn is_white_space(c: char) -> bool {
    ||| ('\u{9}' <= c && c <= '\u{d}')
    ||| c == ' '
    ||| c == '\u{85}'
    ||| c == '\u{a0}'
    ||| c == '\u{1680}'
    ||| ('\u{2000}' <= c && c <= '\u{200a}')
    ||| c == '\u{2028}'
    ||| c == '\u{2029}'
    ||| c == '\u{202f}'
    ||| c == '\u{205f}'
    ||| c == '\u{3000}'
}

/// Whether a character has the Unicode `White_Space` property.
pub fn char_is_white_space(c: char) -> (b: bool)
    ensures
        b == is_white_space(c),
{
    ('\u{9}' <= c && c <= '\u{d}') || c == ' ' || c == '\u{85}' || c == '\u{a0}' || c
        == '\u{1680}' || ('\u{2000}' <= c && c <= '\u{200a}') || c == '\u{2028}' || c
        == '\u{2029}' || c == '\u{202f}' || c == '\u{205f}' || c == '\u{3000}'
}

/// Reading `s` from the left: the words finished so far and the word being
/// read. A word is a maximal run of characters that are not whitespace.
pub open spec fn words_state(s: Seq<char>) -> (Seq<Seq<char>>, Seq<char>)
    decreases s.len(),
{
    if s.len() == 0 {
        (Seq::empty(), Seq::empty())
    } else {
        let (done, cur) = words_state(s.drop_last());
        let c = s.last();
        if is_white_space(c) {
            if cur.len() > 0 {
                (done.push(cur), Seq::empty())
            } else {
                (done, cur)
            }
        } else {
            (done, cur.push(c))
        }
    }
}

/// The words of `s`, in order: its maximal runs of non-whitespace characters.
pub open spec fn words(s: Seq<char>) -> Seq<Seq<char>> {
    let (done, cur) = words_state(s);
    if cur.len() > 0 {
        done.push(cur)
    } else {
        done
    }
}

/// No character of `w` is whitespace.
pub open spec fn no_white_space(w: Seq<char>) -> bool {
    forall|i: int| 0 <= i < w.len() ==> !is_white_space(#[trigger] w[i])
}

proof fn lemma_words_state_nonblank(s: Seq<char>)
    ensures
        no_white_space(words_state(s).1),
        forall|k: int|
            0 <= k < words_state(s).0.len() ==> #[trigger] words_state(s).0[k].len() > 0
                && no_white_space(words_state(s).0[k]),
    decreases s.len(),
{
    if s.len() > 0 {
        lemma_words_state_nonblank(s.drop_last());
        let (done, cur) = words_state(s.drop_last());
        let c = s.last();
        if !is_white_space(c) {
            assert forall|i: int| 0 <= i < cur.push(c).len() implies !is_white_space(
                #[trigger] cur.push(c)[i],
            ) by {
                if i < cur.len() {
                    assert(cur.push(c)[i] == cur[i]);
                }
            }
        } else if cur.len() > 0 {
            assert forall|k: int| 0 <= k < done.push(cur).len() implies #[trigger] done.push(
                cur,
            )[k].len() > 0 && no_white_space(done.push(cur)[k]) by {
                if k < done.len() {
                    assert(done.push(cur)[k] == done[k]);
                }
            }
            assert(no_white_space(Seq::<char>::empty()));
        }
    }
}

/// Every word is nonempty and holds no whitespace.
pub proof fn lemma_words_nonblank(s: Seq<char>)
    ensures
        forall|k: int|
            0 <= k < words(s).len() ==> #[trigger] words(s)[k].len() > 0 && no_white_space(
                words(s)[k],
            ),
{
    lemma_words_state_nonblank(s);
    let (done, cur) = words_state(s);
    if cur.len() > 0 {
        assert forall|k: int| 0 <= k < done.push(cur).len() implies #[trigger] done.push(
            cur,
        )[k].len() > 0 && no_white_space(done.push(cur)[k]) by {
            if k < done.len() {
                assert(done.push(cur)[k] == done[k]);
            }
        }
    }
}

/// Splits a string into its whitespace-separated words.
pub fn split_words(s: &str) -> (res: Vec<String>)
    ensures
        res.deep_view() == words(s@),
{
    let len = s.unicode_len();
    let mut done: Vec<String> = Vec::new();
    let mut cur = String::new();
    let mut i: usize = 0;
    assert(s@.take(0) =~= Seq::<char>::empty());
    assert(done.deep_view() =~= Seq::<Seq<char>>::empty());
    while i < len
        invariant
            i <= len,
            len == s@.len(),
            words_state(s@.take(i as int)) == (done.deep_view(), cur@),
        decreases len - i,
    {
        let c = s.get_char(i);
        assert(s@.take(i + 1).drop_last() =~= s@.take(i as int));
        assert(s@.take(i + 1).last() == c);
        if char_is_white_space(c) {
            if !cur.as_str().is_empty() {
                let ghost before = done.deep_view();
                let ghost word = cur@;
                done.push(cur);
                cur = String::new();
                assert(done.deep_view() =~= before.push(word));
            }
        } else {
            push_char(&mut cur, c);
        }
        i = i + 1;
    }
    assert(s@.take(len as int) =~= s@);
    if !cur.as_str().is_empty() {
        let ghost before = done.deep_view();
        let ghost word = cur@;
        done.push(cur);
        assert(done.deep_view() =~= before.push(word));
    }
    done
}

/// Whether two strings hold the same characters.
pub fn str_equals(a: &str, b: &str) -> (res: bool)
    ensures
        res == (a@ == b@),
{
    let n = a.unicode_len();
    let m = b.unicode_len();
    if n != m {
        return false;
    }
    let mut i: usize = 0;
    while i < n
        invariant
            i <= n,
            n == a@.len(),
            m == b@.len(),
            n == m,
            forall|j: int| 0 <= j < i ==> a@[j] == b@[j],
        decreases n - i,
    {
        if a.get_char(i) != b.get_char(i) {
            return false;
        }
        i = i + 1;
    }
    assert(a@ =~= b@);
    true
}


/// Reading digits whose value stays within `max` succeeds with that value.
proof fn lemma_scan_complete(t: Seq<char>, max: nat)
    requires
        all_digits(t),
        digits_value(t) <= max,
    ensures
        scan_digits(t, max) == Ok::<nat, IntErrorKind>(digits_value(t)),
    decreases t.len(),
{
    if t.len() > 0 {
        let p = t.drop_last();
        assert(all_digits(p)) by {
            assert forall|i: int| 0 <= i < p.len() implies is_digit(#[trigger] p[i]) by {
                assert(p[i] == t[i]);
            }
        }
        assert(is_digit(t[t.len() - 1]));
        assert(digits_value(p) <= digits_value(t));
        lemma_scan_complete(p, max);
    }
}

/// Every run of one or more decimal digits, with or without a leading `+`,
/// whose value is at most `max`, is read as that value.
pub proof fn lemma_parse_unsigned_complete(t: Seq<char>, max: nat)
    requires
        t.len() > 0,
        all_digits(t),
        digits_value(t) <= max,
    ensures
        spec_parse_unsigned(t, max) == Ok::<nat, IntErrorKind>(digits_value(t)),
        spec_parse_unsigned(seq!['+'] + t, max) == Ok::<nat, IntErrorKind>(digits_value(t)),
{
    assert(is_digit(t[0]));
    assert(unsigned_digits(t) == t);
    assert((seq!['+'] + t).drop_first() =~= t);
    assert(unsigned_digits(seq!['+'] + t) == t);
    lemma_scan_complete(t, max);
}

/// The shortest decimal writing of a number at most `max` reads back as that
/// number.
pub proof fn lemma_parse_unsigned_decimal(n: nat, max: nat)
    requires
        n <= max,
    ensures
        spec_parse_unsigned(decimal(n), max) == Ok::<nat, IntErrorKind>(n),
{
    lemma_decimal(n);
    lemma_parse_unsigned_complete(decimal(n), max);
}

/// Appending characters that are not whitespace extends the word being read.
proof fn lemma_words_state_extend(s: Seq<char>, w: Seq<char>)
    requires
        no_white_space(w),
    ensures
        words_state(s + w) == (words_state(s).0, words_state(s).1 + w),
    decreases w.len(),
{
    if w.len() == 0 {
        assert(s + w =~= s);
        assert(words_state(s).1 + w =~= words_state(s).1);
    } else {
        let wl = w.drop_last();
        assert(no_white_space(wl)) by {
            assert forall|i: int| 0 <= i < wl.len() implies !is_white_space(#[trigger] wl[i]) by {
                assert(wl[i] == w[i]);
            }
        }
        lemma_words_state_extend(s, wl);
        assert((s + w).drop_last() =~= s + wl);
        assert((s + w).last() == w.last());
        assert(!is_white_space(w[w.len() - 1]));
        assert((words_state(s).1 + wl).push(w.last()) =~= words_state(s).1 + w);
    }
}

/// Text followed by a space has the same words, all finished.
proof fn lemma_words_state_space(s: Seq<char>)
    ensures
        words_state(s + seq![' ']) == (words(s), Seq::<char>::empty()),
{
    assert((s + seq![' ']).drop_last() =~= s);
    assert((s + seq![' ']).last() == ' ');
}

/// The words of a text without whitespace, when not empty, are that text.
pub proof fn lemma_words_single(w: Seq<char>)
    requires
        w.len() > 0,
        no_white_space(w),
    ensures
        words(w) == seq![w],
{
    lemma_words_state_extend(Seq::empty(), w);
    assert(Seq::<char>::empty() + w =~= w);
    assert(Seq::<char>::empty() + w =~= w);
    assert(words_state(Seq::<char>::empty()) == (
        Seq::<Seq<char>>::empty(),
        Seq::<char>::empty(),
    ));
    assert(Seq::<Seq<char>>::empty().push(w) =~= seq![w]);
}

/// A word added after a space is added, whole, after the text's words.
pub proof fn lemma_words_append(s: Seq<char>, w: Seq<char>)
    requires
        w.len() > 0,
        no_white_space(w),
    ensures
        words(s + seq![' '] + w) == words(s).push(w),
{
    lemma_words_state_space(s);
    lemma_words_state_extend(s + seq![' '], w);
    assert(Seq::<char>::empty() + w =~= w);
}

/// Two words separated by a space are read as those two words, whole.
pub proof fn lemma_words_two(w1: Seq<char>, w2: Seq<char>)
    requires
        w1.len() > 0,
        w2.len() > 0,
        no_white_space(w1),
        no_white_space(w2),
    ensures
        words(w1 + seq![' '] + w2) == seq![w1, w2],
{
    lemma_words_single(w1);
    lemma_words_append(w1, w2);
    assert(seq![w1].push(w2) =~= seq![w1, w2]);
}

} // verus!
