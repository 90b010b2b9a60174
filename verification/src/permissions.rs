//! What the process is allowed to do.

use crate::text::chars_of;
use crate::text::starts_with;
use vstd::prelude::*;

verus! {

/// Position of `CAP_SYS_ADMIN` in a set of capabilities.
pub const CAP_SYS_ADMIN: u64 = 21;

/// Where the line ends that starts at `from`: at the next line feed, or at the end of the text.
pub open spec fn line_end(text: Seq<char>, from: int) -> int
    decreases text.len() - from,
{
    if 0 <= from < text.len() && text[from] != '\n' {
        line_end(text, from + 1)
    } else {
        from
    }
}

/// What follows `prefix` in the first line, from `from` on, that starts with it.
pub open spec fn first_line_after(text: Seq<char>, prefix: Seq<char>, from: int) -> Option<
    Seq<char>,
>
    decreases text.len() - from,
    when 0 <= from <= text.len()
    via line_end_goes_on
{
    let end = line_end(text, from);
    let line = text.subrange(from, end);
    if crate::text::has_prefix(line, prefix) {
        Some(line.skip(prefix.len() as int))
    } else if end < text.len() {
        first_line_after(text, prefix, end + 1)
    } else {
        None
    }
}

#[via_fn]
proof fn line_end_goes_on(text: Seq<char>, prefix: Seq<char>, from: int) {
    lemma_line_end(text, from);
}

proof fn lemma_line_end(text: Seq<char>, from: int)
    requires
        0 <= from <= text.len(),
    ensures
        from <= line_end(text, from) <= text.len(),
        line_end(text, from) < text.len() ==> text[line_end(text, from)] == '\n',
        forall|i: int| from <= i < line_end(text, from) ==> text[i] != '\n',
    decreases text.len() - from,
{
    if from < text.len() && text[from] != '\n' {
        lemma_line_end(text, from + 1);
    }
}

/// Whether a character is white space.
pub open spec fn is_space(c: char) -> bool {
    let code = c as u32;
    ||| 0x9 <= code <= 0xd
    ||| code == 0x20
    ||| code == 0x85
    ||| code == 0xa0
    ||| code == 0x1680
    ||| 0x2000 <= code <= 0x200a
    ||| code == 0x2028
    ||| code == 0x2029
    ||| code == 0x202f
    ||| code == 0x205f
    ||| code == 0x3000
}

/// A text without the white space that it starts with.
pub open spec fn trim_start(text: Seq<char>) -> Seq<char>
    decreases text.len(),
{
    if text.len() > 0 && is_space(text[0]) {
        trim_start(text.drop_first())
    } else {
        text
    }
}

/// A text without the white space that it ends with.
pub open spec fn trim_end(text: Seq<char>) -> Seq<char>
    decreases text.len(),
{
    if text.len() > 0 && is_space(text.last()) {
        trim_end(text.drop_last())
    } else {
        text
    }
}

/// The value of a hexadecimal digit.
pub open spec fn hex_digit(c: char) -> Option<int> {
    if '0' <= c <= '9' {
        Some(c as u32 - '0' as u32)
    } else if 'a' <= c <= 'f' {
        Some(c as u32 - 'a' as u32 + 10)
    } else if 'A' <= c <= 'F' {
        Some(c as u32 - 'A' as u32 + 10)
    } else {
        None
    }
}

/// The number that hexadecimal digits stand for; no digits stand for zero.
pub open spec fn hex_value(digits: Seq<char>) -> Option<int>
    decreases digits.len(),
{
    if digits.len() == 0 {
        Some(0)
    } else {
        match (hex_value(digits.drop_last()), hex_digit(digits.last())) {
            (Some(high), Some(low)) => Some(high * 16 + low),
            _ => None,
        }
    }
}

/// The digits of a number that may be written with a plus sign.
pub open spec fn unsigned_digits(text: Seq<char>) -> Seq<char> {
    if text.len() > 0 && text[0] == '+' {
        text.drop_first()
    } else {
        text
    }
}

/// The number that a text stands for in hexadecimal, if it has digits and the number fits in
/// sixty-four bits.
pub open spec fn parsed_hex(text: Seq<char>) -> Option<int> {
    let digits = unsigned_digits(text);
    match hex_value(digits) {
        Some(value) if digits.len() > 0 && value <= u64::MAX => Some(value),
        _ => None,
    }
}

/// The effective capabilities that a process status gives, if it gives them.
pub open spec fn effective_capabilities(status: Seq<char>) -> Option<int> {
    match first_line_after(status, "CapEff:\t"@, 0) {
        Some(rest) => parsed_hex(trim_end(trim_start(rest))),
        None => None,
    }
}

/// Whether a process status gives the capability to administer the system.
pub open spec fn grants_sys_admin(status: Seq<char>) -> bool {
    match effective_capabilities(status) {
        Some(caps) => caps / 0x20_0000 % 2 == 1,
        None => false,
    }
}

/// Whether a process status says that the process has the capability to administer the system.
/// `None` stands for a status that could not be read.
pub fn has_cap_sys_admin(status: Option<&str>) -> (has: bool)
    ensures
        has == (match status {
            None => false,
            Some(text) => match effective_capabilities(text@) {
                Some(caps) => caps / 0x20_0000 % 2 == 1,
                None => false,
            },
        }),
        has == (status matches Some(text) && grants_sys_admin(text@)),
{
    let text: Vec<char> = match status {
        None => return false,
        Some(text) => chars_of(text),
    };
    let prefix: Vec<char> = chars_of("CapEff:\t");
    let mut from: usize = 0;
    loop
        invariant
            from <= text@.len(),
            status is Some,
            text@ == status->0@,
            prefix@ == "CapEff:\t"@,
            first_line_after(text@, prefix@, 0) == first_line_after(text@, prefix@, from as int),
        decreases text@.len() - from,
    {
        let mut line: Vec<char> = Vec::new();
        let mut end: usize = from;
        proof {
            lemma_line_end(text@, from as int);
            assert(line@ =~= text@.subrange(from as int, end as int));
        }
        while end < text.len() && text[end] != '\n'
            invariant
                from <= end <= text@.len(),
                line_end(text@, from as int) == line_end(text@, end as int),
                line@ == text@.subrange(from as int, end as int),
            decreases text@.len() - end,
        {
            line.push(text[end]);
            end += 1;
            assert(line@ =~= text@.subrange(from as int, end as int));
        }
        assert(line_end(text@, from as int) == end);
        if starts_with(&line, &prefix) {
            return match parse_hex(&line, prefix.len()) {
                Some(caps) => {
                    assert((caps & (1u64 << 21) != 0) == (caps / 0x20_0000 % 2 == 1))
                        by (bit_vector);
                    caps & (1u64 << CAP_SYS_ADMIN) != 0
                },
                None => false,
            };
        }
        if end == text.len() {
            return false;
        }
        from = end + 1;
    }
}

/// Whether a character is white space.
fn check_space(c: char) -> (space: bool)
    ensures
        space == is_space(c),
{
    let code: u32 = c as u32;
    (0x9 <= code && code <= 0xd) || code == 0x20 || code == 0x85 || code == 0xa0 || code == 0x1680
        || (0x2000 <= code && code <= 0x200a) || code == 0x2028 || code == 0x2029 || code == 0x202f
        || code == 0x205f || code == 0x3000
}

/// The value of a hexadecimal digit.
fn digit_value(c: char) -> (value: Option<u64>)
    ensures
        match value {
            Some(v) => hex_digit(c) == Some(v as int) && v < 16,
            None => hex_digit(c) is None,
        },
{
    let code: u32 = c as u32;
    if '0' <= c && c <= '9' {
        Some((code - 0x30) as u64)
    } else if 'a' <= c && c <= 'f' {
        Some((code - 0x61 + 10) as u64)
    } else if 'A' <= c && c <= 'F' {
        Some((code - 0x41 + 10) as u64)
    } else {
        None
    }
}

proof fn lemma_hex_value_grows(digits: Seq<char>, n: int)
    requires
        0 <= n <= digits.len(),
    ensures
        hex_value(digits.take(n)) is None ==> hex_value(digits) is None,
        hex_value(digits) matches Some(all) ==> (hex_value(digits.take(n)) matches Some(some) && 0
            <= some <= all),
    decreases digits.len(),
{
    if n == digits.len() {
        assert(digits.take(n) =~= digits);
        if n > 0 {
            lemma_hex_value_grows(digits.drop_last(), n - 1);
            assert(digits.drop_last().take(n - 1) =~= digits.drop_last());
        }
    } else {
        lemma_hex_value_grows(digits.drop_last(), n);
        assert(digits.drop_last().take(n) =~= digits.take(n));
    }
}

/// Reads the hexadecimal number that `line` holds from `from` on, between white space.
fn parse_hex(line: &Vec<char>, from: usize) -> (value: Option<u64>)
    requires
        from <= line@.len(),
    ensures
        match value {
            Some(v) => parsed_hex(trim_end(trim_start(line@.skip(from as int)))) == Some(v as int),
            None => parsed_hex(trim_end(trim_start(line@.skip(from as int)))) is None,
        },
{
    let ghost whole = trim_end(trim_start(line@.skip(from as int)));
    let mut start: usize = from;
    while start < line.len() && check_space(line[start])
        invariant
            from <= start <= line@.len(),
            trim_start(line@.skip(from as int)) == trim_start(line@.skip(start as int)),
        decreases line@.len() - start,
    {
        assert(line@.skip(start as int).drop_first() =~= line@.skip(start + 1));
        start += 1;
    }
    let mut end: usize = line.len();
    assert(line@.skip(start as int) =~= line@.subrange(start as int, end as int));
    while end > start && check_space(line[end - 1])
        invariant
            start <= end <= line@.len(),
            whole == trim_end(line@.subrange(start as int, end as int)),
        decreases end,
    {
        assert(line@.subrange(start as int, end as int).drop_last() =~= line@.subrange(
            start as int,
            end - 1,
        ));
        end -= 1;
    }
    assert(whole == line@.subrange(start as int, end as int));
    if start < end && line[start] == '+' {
        assert(whole.drop_first() =~= line@.subrange(start + 1, end as int));
        start += 1;
    }
    let ghost digits = unsigned_digits(whole);
    assert(digits == line@.subrange(start as int, end as int));
    if start == end {
        return None;
    }
    let mut value: u64 = 0;
    let mut at: usize = start;
    assert(digits.take(0) =~= Seq::<char>::empty());
    while at < end
        invariant
            start <= at <= end <= line@.len(),
            start < end,
            digits == line@.subrange(start as int, end as int),
            digits == unsigned_digits(whole),
            whole == trim_end(trim_start(line@.skip(from as int))),
            hex_value(digits.take(at - start)) == Some(value as int),
        decreases end - at,
    {
        let ghost n = at - start;
        proof {
            assert(digits.take(n + 1).drop_last() =~= digits.take(n));
            assert(digits.take(n + 1).last() == line@[at as int]);
            lemma_hex_value_grows(digits, n + 1);
        }
        let digit: u64 = match digit_value(line[at]) {
            Some(digit) => digit,
            None => return None,
        };
        if value > u64::MAX / 16 {
            return None;
        }
        let shifted: u64 = value * 16;
        if shifted > u64::MAX - digit {
            return None;
        }
        value = shifted + digit;
        at += 1;
    }
    assert(digits.take(at - start) =~= digits);
    Some(value)
}

/// The state of the device that virtual input devices are made with.
#[derive(Clone, Copy, Debug, PartialEq, Eq, Structural)]
pub enum UinputState {
    Missing,
    NotWritable,
    Usable,
}

/// Something that the process will not be able to do.
#[derive(Clone, Copy, Debug, PartialEq, Eq, Structural)]
pub enum PermissionWarning {
    /// Framebuffers cannot be read without the capability to administer the system.
    NoSysAdmin,
    /// Input cannot be forwarded without access to the device.
    UinputNotWritable,
    /// Input cannot be forwarded without the device.
    UinputMissing,
}

/// Finds out what to warn of before anything is tried.
pub fn check_permissions(sys_admin: bool, uinput: UinputState) -> (warnings: Vec<
    PermissionWarning,
>)
    ensures
        warnings@ == (if sys_admin {
            Seq::<PermissionWarning>::empty()
        } else {
            seq![PermissionWarning::NoSysAdmin]
        }) + (match uinput {
            UinputState::Usable => Seq::<PermissionWarning>::empty(),
            UinputState::NotWritable => seq![PermissionWarning::UinputNotWritable],
            UinputState::Missing => seq![PermissionWarning::UinputMissing],
        }),
{
    let mut warnings: Vec<PermissionWarning> = Vec::new();
    if !sys_admin {
        warnings.push(PermissionWarning::NoSysAdmin);
    }
    match uinput {
        UinputState::Usable => {},
        UinputState::NotWritable => {
            warnings.push(PermissionWarning::UinputNotWritable);
        },
        UinputState::Missing => {
            warnings.push(PermissionWarning::UinputMissing);
        },
    }
    warnings
}

proof fn lemma_line_end_shifts(text: Seq<char>, by: int, from: int)
    requires
        0 <= by,
        0 <= from,
        by + from <= text.len(),
    ensures
        line_end(text, by + from) == by + line_end(text.skip(by), from),
    decreases text.len() - by - from,
{
    if by + from < text.len() && text[by + from] != '\n' {
        assert(text.skip(by)[from] == text[by + from]);
        lemma_line_end_shifts(text, by, from + 1);
    }
}

proof fn lemma_lines_shift(text: Seq<char>, prefix: Seq<char>, by: int, from: int)
    requires
        0 <= by,
        0 <= from,
        by + from <= text.len(),
    ensures
        first_line_after(text, prefix, by + from) == first_line_after(
            text.skip(by),
            prefix,
            from,
        ),
    decreases text.len() - by - from,
{
    let rest = text.skip(by);
    lemma_line_end(text, by + from);
    lemma_line_end(rest, from);
    lemma_line_end_shifts(text, by, from);
    let end = line_end(rest, from);
    assert(text.subrange(by + from, by + end) =~= rest.subrange(from, end));
    if end < rest.len() {
        lemma_lines_shift(text, prefix, by, end + 1);
    }
}

proof fn lemma_line_end_is(text: Seq<char>, from: int, end: int)
    requires
        0 <= from <= end <= text.len(),
        end < text.len() ==> text[end] == '\n',
        forall|i: int| from <= i < end ==> text[i] != '\n',
    ensures
        line_end(text, from) == end,
    decreases end - from,
{
    if from < end {
        lemma_line_end_is(text, from + 1, end);
    }
}

/// Other lines do not matter: a line that does not start with the name of the effective capabilities
/// can be left out at the start of a status.
pub proof fn law_other_lines_do_not_matter(line: Seq<char>, rest: Seq<char>)
    requires
        forall|i: int| 0 <= i < line.len() ==> line[i] != '\n',
        !("CapEff:\t"@.is_prefix_of(line)),
    ensures
        grants_sys_admin(line + seq!['\n'] + rest) == grants_sys_admin(rest),
{
    let prefix = "CapEff:\t"@;
    let text = line + seq!['\n'] + rest;
    let n = line.len() as int;
    lemma_line_end_is(text, 0, n);
    assert(text.subrange(0, n) =~= line);
    if crate::text::has_prefix(line, prefix) {
        assert(line.take(prefix.len() as int) =~= line.subrange(0, prefix.len() as int));
    }
    lemma_lines_shift(text, prefix, n + 1, 0);
    assert(text.skip(n + 1) =~= rest);
}

/// Without the line there is no capability: a status of one line that does not start with the name of
/// the effective capabilities gives none.
pub proof fn law_without_the_line_there_is_no_capability(line: Seq<char>)
    requires
        forall|i: int| 0 <= i < line.len() ==> line[i] != '\n',
        !("CapEff:\t"@.is_prefix_of(line)),
    ensures
        !grants_sys_admin(line),
{
    let prefix = "CapEff:\t"@;
    let n = line.len() as int;
    lemma_line_end_is(line, 0, n);
    assert(line.subrange(0, n) =~= line);
    if crate::text::has_prefix(line, prefix) {
        assert(line.take(prefix.len() as int) =~= line.subrange(0, prefix.len() as int));
    }
}

/// Whether a character is a hexadecimal digit.
pub open spec fn is_hex(c: char) -> bool {
    '0' <= c <= '9' || 'a' <= c <= 'f' || 'A' <= c <= 'F'
}

/// Whether a character is a hexadecimal digit in which the second bit from the right is set.
pub open spec fn has_second_bit(c: char) -> bool {
    ||| c == '2' || c == '3' || c == '6' || c == '7'
    ||| c == 'a' || c == 'b' || c == 'e' || c == 'f'
    ||| c == 'A' || c == 'B' || c == 'E' || c == 'F'
}

/// The largest number of so many hexadecimal digits.
spec fn largest(n: int) -> int
    decreases n,
{
    if n <= 0 {
        0
    } else {
        largest(n - 1) * 16 + 15
    }
}

proof fn lemma_largest(n: int)
    requires
        0 <= n <= 16,
    ensures
        0 <= largest(n) <= u64::MAX,
        n <= 5 ==> largest(n) < 0x20_0000,
{
    reveal_with_fuel(largest, 17);
}

proof fn lemma_digits_value(digits: Seq<char>)
    requires
        forall|i: int| 0 <= i < digits.len() ==> is_hex(#[trigger] digits[i]),
    ensures
        hex_value(digits) is Some,
        0 <= hex_value(digits)->0 <= largest(digits.len() as int),
        digits.len() > 0 ==> {
            &&& hex_value(digits.drop_last()) == Some(hex_value(digits)->0 / 16)
            &&& hex_digit(digits.last()) == Some(hex_value(digits)->0 % 16)
        },
    decreases digits.len(),
{
    if digits.len() > 0 {
        let earlier = digits.drop_last();
        assert(is_hex(digits[digits.len() - 1]));
        assert forall|i: int| 0 <= i < earlier.len() implies is_hex(#[trigger] earlier[i]) by {
            assert(is_hex(digits[i]));
        }
        lemma_digits_value(earlier);
    }
}

proof fn lemma_nothing_to_trim(digits: Seq<char>)
    requires
        digits.len() > 0,
        forall|i: int| 0 <= i < digits.len() ==> is_hex(#[trigger] digits[i]),
    ensures
        trim_end(trim_start(digits)) == digits,
        unsigned_digits(digits) == digits,
{
    assert(is_hex(digits[0]));
    assert(is_hex(digits[digits.len() - 1]));
    lemma_hex_is_no_space(digits[0]);
    lemma_hex_is_no_space(digits[digits.len() - 1]);
}

proof fn lemma_hex_is_no_space(c: char)
    requires
        is_hex(c),
    ensures
        !is_space(c),
        c != '+',
        c != '\n',
{
}

/// Dropping digits from the right divides the number by sixteen for each.
proof fn lemma_drop_digits(digits: Seq<char>, n: int)
    requires
        0 <= n < digits.len(),
        n <= 5,
        forall|i: int| 0 <= i < digits.len() ==> is_hex(#[trigger] digits[i]),
    ensures
        hex_value(digits) is Some,
        hex_digit(digits[digits.len() - 1 - n]) == Some(shifted(hex_value(digits)->0, n) % 16),
    decreases n,
{
    lemma_digits_value(digits);
    if n > 0 {
        let earlier = digits.drop_last();
        assert forall|i: int| 0 <= i < earlier.len() implies is_hex(#[trigger] earlier[i]) by {
            assert(is_hex(digits[i]));
        }
        lemma_drop_digits(earlier, n - 1);
    }
}

/// A number divided by sixteen so many times.
spec fn shifted(value: int, n: int) -> int
    decreases n,
{
    if n <= 0 {
        value
    } else {
        shifted(value / 16, n - 1)
    }
}

proof fn lemma_shifted(value: int)
    requires
        0 <= value,
    ensures
        value / 0x20_0000 % 2 == shifted(value, 5) % 16 / 2 % 2,
{
    assert(shifted(value, 5) == value / 0x10_0000) by {
        lemma_five_digits(value);
    }
    let top = value / 0x10_0000;
    vstd::arithmetic::div_mod::lemma_div_denominator(value, 0x10_0000, 2);
    assert(value / 0x20_0000 == top / 2);
    assert(top / 2 % 2 == top % 16 / 2 % 2);
}

proof fn lemma_five_digits(value: int)
    requires
        0 <= value,
    ensures
        shifted(value, 5) == value / 0x10_0000,
{
    vstd::arithmetic::div_mod::lemma_div_denominator(value, 16, 16);
    vstd::arithmetic::div_mod::lemma_div_denominator(value, 0x100, 16);
    vstd::arithmetic::div_mod::lemma_div_denominator(value, 0x1000, 16);
    vstd::arithmetic::div_mod::lemma_div_denominator(value, 0x1_0000, 16);
    let v1 = value / 16;
    let v2 = value / 0x100;
    let v3 = value / 0x1000;
    let v4 = value / 0x1_0000;
    let v5 = value / 0x10_0000;
    assert(shifted(v5, 0) == v5);
    assert(shifted(v4, 1) == v5);
    assert(shifted(v3, 2) == v5);
    assert(shifted(v2, 3) == v5);
    assert(shifted(v1, 4) == v5);
}

proof fn lemma_digit_bit(c: char)
    requires
        is_hex(c),
    ensures
        hex_digit(c) matches Some(digit) && (digit / 2 % 2 == 1 <==> has_second_bit(c)),
{
}

proof fn lemma_sixth_digit(digits: Seq<char>)
    requires
        1 <= digits.len() <= 16,
        forall|i: int| 0 <= i < digits.len() ==> is_hex(#[trigger] digits[i]),
    ensures
        hex_value(digits) is Some,
        hex_value(digits)->0 / 0x20_0000 % 2 == 1 <==> (digits.len() >= 6 && has_second_bit(
            digits[digits.len() - 6],
        )),
{
    lemma_digits_value(digits);
    lemma_largest(digits.len() as int);
    if digits.len() >= 6 {
        lemma_drop_digits(digits, 5);
        lemma_shifted(hex_value(digits)->0);
        assert(is_hex(digits[digits.len() - 6]));
        lemma_digit_bit(digits[digits.len() - 6]);
    }
}

/// The sixth digit from the right decides: where a status starts with the effective capabilities in
/// up to sixteen hexadecimal digits, the process has the capability to administer the system exactly
/// if there are six digits and the second bit of the sixth from the right is set. What follows the
/// line does not matter.
pub proof fn law_sixth_digit_decides(digits: Seq<char>, tail: Seq<char>)
    requires
        1 <= digits.len() <= 16,
        forall|i: int| 0 <= i < digits.len() ==> is_hex(#[trigger] digits[i]),
        tail.len() > 0 ==> tail[0] == '\n',
    ensures
        grants_sys_admin("CapEff:\t"@ + digits + tail) <==> (digits.len() >= 6 && has_second_bit(
            digits[digits.len() - 6],
        )),
{
    reveal_strlit("CapEff:\t");
    let prefix = "CapEff:\t"@;
    let text = prefix + digits + tail;
    let end = (prefix.len() + digits.len()) as int;
    assert forall|i: int| 0 <= i < end implies text[i] != '\n' by {
        if i >= prefix.len() {
            assert(is_hex(digits[i - prefix.len()]));
            lemma_hex_is_no_space(digits[i - prefix.len()]);
        }
    }
    lemma_line_end_is(text, 0, end);
    let line = text.subrange(0, end);
    assert(line =~= prefix + digits);
    assert(line.take(prefix.len() as int) =~= prefix);
    assert(line.skip(prefix.len() as int) =~= digits);
    lemma_nothing_to_trim(digits);
    lemma_digits_value(digits);
    lemma_largest(digits.len() as int);
    let value = hex_value(digits)->0;
    assert(effective_capabilities(text) == Some(value));
    lemma_sixth_digit(digits);
}

} // verus!
