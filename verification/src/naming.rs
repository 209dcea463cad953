//! Names: the number that a chapter's file starts with, the name of the
//! file, and the title that the name gives back.

use vstd::prelude::*;
use crate::order::{common_prefix_len, lemma_common_prefix, precedes};
use crate::text::{
    append_range, chars_of, is_digit, lemma_run_end, occurs_at, run_end, scan_forward, stands_at,
    string_of, Class,
};

verus! {

/// How many digits the number of a chapter is written with, at the least.
pub const NUMBER_WIDTH: usize = 8;

/// What the name of a chapter's file ends with.
pub const CHAPTER_SUFFIX: &'static str = ".xhtml";

/// The digit that stands for `d`, which is less than ten.
pub open spec fn digit_char(d: nat) -> char {
    ((0x30 + d) as u8) as char
}

/// `n` in decimal, with no more digits than it needs.
pub open spec fn decimal(n: nat) -> Seq<char>
    decreases n,
{
    if n < 10 {
        seq![digit_char(n)]
    } else {
        decimal(n / 10).push(digit_char(n % 10))
    }
}

/// `n` in decimal, with zeros before it where it has fewer than eight
/// digits.
pub open spec fn padded(n: nat) -> Seq<char> {
    if decimal(n).len() >= NUMBER_WIDTH {
        decimal(n)
    } else {
        Seq::new((NUMBER_WIDTH - decimal(n).len()) as nat, |i: int| '0') + decimal(n)
    }
}

/// The name of the file of the chapter with the number `number` and the
/// title `title`.
pub open spec fn chapter_file_name(number: nat, title: Seq<char>) -> Seq<char> {
    padded(number) + seq![' '] + title + CHAPTER_SUFFIX@
}

/// Whether a file of the name `name` holds a chapter.
pub open spec fn is_chapter_name(name: Seq<char>) -> bool {
    occurs_at(name, CHAPTER_SUFFIX@, name.len() - CHAPTER_SUFFIX@.len())
}

/// The title that the name of a chapter's file shows: the name without the
/// digits and the one space that it starts with. A name that does not start
/// so is its own title.
pub open spec fn display_title(name: Seq<char>) -> Seq<char> {
    let digits = run_end(name, Class::Digit, 0);
    if digits < name.len() && name[digits] == ' ' {
        name.skip(digits + 1)
    } else {
        name
    }
}

fn digit_of(d: u64) -> (c: char)
    requires
        d < 10,
    ensures
        c == digit_char(d as nat),
        is_digit(c),
{
    let code: u8 = 0x30u8 + (d as u8);
    code as char
}

/// Writes `n` in decimal.
pub fn write_decimal(n: u64) -> (out: Vec<char>)
    ensures
        out@ == decimal(n as nat),
{
    let mut out: Vec<char> = Vec::new();
    out.push(digit_of(n % 10));
    let mut rest: u64 = n / 10;
    while rest > 0
        invariant
            decimal(n as nat) == if rest > 0 {
                decimal(rest as nat) + out@
            } else {
                out@
            },
        decreases rest,
    {
        out.insert(0, digit_of(rest % 10));
        rest = rest / 10;
    }
    out
}

/// Writes `n` in decimal, with zeros before it where it has fewer than
/// eight digits.
pub fn pad_number(n: u64) -> (out: Vec<char>)
    ensures
        out@ == padded(n as nat),
{
    let mut out = write_decimal(n);
    while out.len() < NUMBER_WIDTH
        invariant
            out@.len() <= NUMBER_WIDTH || out@ == decimal(n as nat),
            out@.len() >= decimal(n as nat).len(),
            out@ == Seq::new((out@.len() - decimal(n as nat).len()) as nat, |i: int| '0')
                + decimal(n as nat),
        decreases NUMBER_WIDTH - out.len(),
    {
        out.insert(0, '0');
    }
    out
}

/// Writes the name of the file of the chapter with the number `number` and
/// the title `title`.
pub fn name_chapter_file(number: u64, title: &str) -> (name: String)
    ensures
        name@ == chapter_file_name(number as nat, title@),
{
    let mut out = pad_number(number);
    out.push(' ');
    let title = chars_of(title);
    append_range(&mut out, &title, 0, title.len());
    let suffix = chars_of(CHAPTER_SUFFIX);
    append_range(&mut out, &suffix, 0, suffix.len());
    assert(title@.subrange(0, title@.len() as int) =~= title@);
    assert(suffix@.subrange(0, suffix@.len() as int) =~= suffix@);
    string_of(&out)
}

/// Whether a file of the name `name` holds a chapter.
pub fn is_chapter_file(name: &str) -> (b: bool)
    ensures
        b == is_chapter_name(name@),
{
    let name = chars_of(name);
    let suffix = chars_of(CHAPTER_SUFFIX);
    name.len() >= suffix.len() && stands_at(&name, &suffix, name.len() - suffix.len())
}

/// The title that the name of a chapter's file shows.
pub fn chapter_name(name: &str) -> (title: String)
    ensures
        title@ == display_title(name@),
{
    let text = chars_of(name);
    let digits = scan_forward(&text, Class::Digit, 0);
    if digits < text.len() && text[digits] == ' ' {
        let mut out: Vec<char> = Vec::new();
        append_range(&mut out, &text, digits + 1, text.len());
        string_of(&out)
    } else {
        string_of(&text)
    }
}

/// Every character of a number in decimal is a digit.
pub proof fn lemma_decimal_digits(n: nat)
    ensures
        decimal(n).len() >= 1,
        forall|i: int| 0 <= i < decimal(n).len() ==> is_digit(#[trigger] decimal(n)[i]),
    decreases n,
{
    if n >= 10 {
        lemma_decimal_digits(n / 10);
    }
}

/// The name of a chapter's file shows the chapter's title, with the suffix
/// of the file after it.
pub proof fn lemma_display_title(number: nat, title: Seq<char>)
    ensures
        display_title(chapter_file_name(number, title)) == title + CHAPTER_SUFFIX@,
        is_chapter_name(chapter_file_name(number, title)),
{
    let name = chapter_file_name(number, title);
    let prefix = padded(number);
    lemma_decimal_digits(number);
    assert forall|i: int| 0 <= i < prefix.len() implies is_digit(#[trigger] name[i]) by {
        assert(name[i] == prefix[i]);
    }
    assert(name[prefix.len() as int] == ' ');
    lemma_run_end(name, Class::Digit, 0);
    let digits = run_end(name, Class::Digit, 0);
    assert(digits == prefix.len()) by {
        if digits < prefix.len() {
            assert(is_digit(name[digits]));
        }
        if digits > prefix.len() {
            assert(Class::Digit.has(name[prefix.len() as int]));
        }
    }
    assert(name.skip(digits + 1) =~= title + CHAPTER_SUFFIX@);
    assert(name.subrange(name.len() - CHAPTER_SUFFIX@.len(), name.len() as int)
        =~= CHAPTER_SUFFIX@);
}

/// Ten to the power of `w`.
pub open spec fn pow10(w: nat) -> nat
    decreases w,
{
    if w == 0 {
        1
    } else {
        10 * pow10((w - 1) as nat)
    }
}

/// The last `w` digits of `n` in decimal.
pub open spec fn fixed(n: nat, w: nat) -> Seq<char>
    decreases w,
{
    if w == 0 {
        Seq::empty()
    } else {
        fixed(n / 10, (w - 1) as nat).push(digit_char(n % 10))
    }
}

proof fn lemma_fixed_len(n: nat, w: nat)
    ensures
        fixed(n, w).len() == w,
    decreases w,
{
    if w > 0 {
        lemma_fixed_len(n / 10, (w - 1) as nat);
    }
}

proof fn lemma_fixed_zero(w: nat)
    ensures
        fixed(0, w) == Seq::new(w, |i: int| '0'),
    decreases w,
{
    if w > 0 {
        lemma_fixed_zero((w - 1) as nat);
        assert(fixed(0, w) =~= Seq::new(w, |i: int| '0'));
    }
}

proof fn lemma_decimal_fixed(n: nat, w: nat)
    requires
        w >= 1,
        n < pow10(w),
    ensures
        decimal(n).len() <= w,
        Seq::new((w - decimal(n).len()) as nat, |i: int| '0') + decimal(n) == fixed(n, w),
    decreases w,
{
    lemma_fixed_len(n / 10, (w - 1) as nat);
    if n < 10 {
        lemma_fixed_zero((w - 1) as nat);
        assert(Seq::new((w - 1) as nat, |i: int| '0') + seq![digit_char(n)] =~= Seq::new(
            (w - 1) as nat,
            |i: int| '0',
        ).push(digit_char(n % 10)));
    } else {
        assert(w >= 2) by {
            if w == 1 {
                assert(pow10(1) == 10) by {
                    reveal_with_fuel(pow10, 2);
                }
            }
        }
        lemma_decimal_fixed(n / 10, (w - 1) as nat);
        let zeros = Seq::new((w - decimal(n).len()) as nat, |i: int| '0');
        assert(zeros + decimal(n) =~= (zeros + decimal(n / 10)).push(digit_char(n % 10)));
    }
}

proof fn lemma_fixed_order(a: nat, b: nat, w: nat) -> (k: int)
    requires
        a < b < pow10(w),
    ensures
        0 <= k < w,
        forall|i: int| 0 <= i < k ==> fixed(a, w)[i] == fixed(b, w)[i],
        (fixed(a, w)[k] as u32) < (fixed(b, w)[k] as u32),
    decreases w,
{
    lemma_fixed_len(a / 10, (w - 1) as nat);
    lemma_fixed_len(b / 10, (w - 1) as nat);
    if a / 10 == b / 10 {
        (w - 1) as int
    } else {
        let k = lemma_fixed_order(a / 10, b / 10, (w - 1) as nat);
        assert forall|i: int| 0 <= i < k implies fixed(a, w)[i] == fixed(b, w)[i] by {
            assert(fixed(a, w)[i] == fixed(a / 10, (w - 1) as nat)[i]);
            assert(fixed(b, w)[i] == fixed(b / 10, (w - 1) as nat)[i]);
        }
        assert(fixed(a, w)[k] == fixed(a / 10, (w - 1) as nat)[k]);
        assert(fixed(b, w)[k] == fixed(b / 10, (w - 1) as nat)[k]);
        k
    }
}

/// The names of chapters' files stand as the chapters' numbers do, whatever
/// their titles: of two numbers of no more than eight digits, the file of
/// the lesser comes before the file of the greater.
pub proof fn lemma_names_in_order(a: nat, b: nat, first: Seq<char>, second: Seq<char>)
    requires
        a < b < 100_000_000,
    ensures
        precedes(chapter_file_name(a, first), chapter_file_name(b, second)),
{
    assert(pow10(8) == 100_000_000) by {
        reveal_with_fuel(pow10, 9);
    }
    lemma_decimal_fixed(a, 8);
    lemma_decimal_fixed(b, 8);
    lemma_fixed_len(a, 8);
    lemma_fixed_len(b, 8);
    assert(padded(a) == fixed(a, 8)) by {
        if decimal(a).len() == 8 {
            assert(Seq::new(0, |i: int| '0') + decimal(a) =~= decimal(a));
        }
    }
    assert(padded(b) == fixed(b, 8)) by {
        if decimal(b).len() == 8 {
            assert(Seq::new(0, |i: int| '0') + decimal(b) =~= decimal(b));
        }
    }
    let k = lemma_fixed_order(a, b, 8);
    let x = chapter_file_name(a, first);
    let y = chapter_file_name(b, second);
    assert forall|i: int| 0 <= i <= k implies x[i] == fixed(a, 8)[i] && y[i] == fixed(b, 8)[i] by {
        assert(x[i] == padded(a)[i]);
        assert(y[i] == padded(b)[i]);
    }
    lemma_common_prefix(x, y, 0);
    let c = common_prefix_len(x, y, 0);
    assert(c == k) by {
        if c < k {
            assert(x[c] == fixed(a, 8)[c] && y[c] == fixed(b, 8)[c]);
        }
        if c > k {
            assert(x[k] == y[k]);
        }
    }
}

} // verus!
