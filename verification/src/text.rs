//! Operations on text, stated over sequences of characters.

use vstd::prelude::*;

verus! {

/// Whether `c` has the Unicode property `White_Space`.
pub open spec fn is_white_space(c: char) -> bool {
    ||| 0x09 <= c as int <= 0x0d
    ||| c as int == 0x20
    ||| c as int == 0x85
    ||| c as int == 0xa0
    ||| c as int == 0x1680
    ||| 0x2000 <= c as int <= 0x200a
    ||| c as int == 0x2028
    ||| c as int == 0x2029
    ||| c as int == 0x202f
    ||| c as int == 0x205f
    ||| c as int == 0x3000
}

/// `s` from its first character on that is not white space.
pub open spec fn without_leading_space(s: Seq<char>) -> Seq<char>
    decreases s.len(),
{
    if s.len() > 0 && is_white_space(s[0]) {
        without_leading_space(s.drop_first())
    } else {
        s
    }
}

/// `s` up to and with its last character that is not white space.
pub open spec fn without_trailing_space(s: Seq<char>) -> Seq<char>
    decreases s.len(),
{
    if s.len() > 0 && is_white_space(s.last()) {
        without_trailing_space(s.drop_last())
    } else {
        s
    }
}

/// `s` without the white space at its two ends.
pub open spec fn trimmed(s: Seq<char>) -> Seq<char> {
    without_trailing_space(without_leading_space(s))
}

/// Appends one character: `String::push`.
///
/// The contract says that the text grows by exactly that character, at its end.
pub assume_specification[ String::push ](text: &mut String, c: char)
    ensures
        final(text)@ == old(text)@.push(c),
;

/// The characters of `s`, in order.
pub fn chars_of(s: &str) -> (chars: Vec<char>)
    ensures
        chars@ == s@,
{
    let mut chars: Vec<char> = Vec::new();
    for c in it: s.chars()
        invariant
            it.seq() == s@,
            chars@ == s@.take(it.index()),
    {
        chars.push(c);
    }
    chars
}

fn white_space(c: char) -> (yes: bool)
    ensures
        yes == is_white_space(c),
{
    let n: u32 = c as u32;
    (0x09 <= n && n <= 0x0d) || n == 0x20 || n == 0x85 || n == 0xa0 || n == 0x1680 || (0x2000 <= n
        && n <= 0x200a) || n == 0x2028 || n == 0x2029 || n == 0x202f || n == 0x205f || n == 0x3000
}

/// `s` without the white space at its two ends.
pub fn trim(s: &str) -> (r: &str)
    ensures
        r@ == trimmed(s@),
{
    let chars = chars_of(s);
    let mut start: usize = 0;
    assert(s@.skip(0) == s@);
    while start < chars.len() && white_space(chars[start])
        invariant
            start <= chars.len(),
            chars@ == s@,
            without_leading_space(s@) == without_leading_space(s@.skip(start as int)),
        decreases chars.len() - start,
    {
        assert(s@.skip(start as int).drop_first() == s@.skip(start + 1));
        start += 1;
    }
    let ghost kept = s@.skip(start as int);
    let mut end: usize = chars.len();
    assert(kept == s@.subrange(start as int, end as int));
    while end > start && white_space(chars[end - 1])
        invariant
            start <= end <= chars.len(),
            chars@ == s@,
            without_trailing_space(kept) == without_trailing_space(
                s@.subrange(start as int, end as int),
            ),
        decreases end - start,
    {
        assert(s@.subrange(start as int, end as int).drop_last() == s@.subrange(
            start as int,
            end - 1,
        ));
        end -= 1;
    }
    s.substring_char(start, end)
}

/// Whether `needle` stands in `text` from index `at` on.
pub open spec fn occurs_at(text: Seq<char>, needle: Seq<char>, at: int) -> bool {
    &&& 0 <= at
    &&& at + needle.len() <= text.len()
    &&& text.subrange(at, at + needle.len()) == needle
}

/// Whether `needle` stands anywhere in `text`.
pub open spec fn occurs_in(text: Seq<char>, needle: Seq<char>) -> bool {
    exists|at: int| occurs_at(text, needle, at)
}

/// Whether `needle` stands in `text` from index `at` on.
fn stands_at(text: &Vec<char>, needle: &Vec<char>, at: usize) -> (yes: bool)
    requires
        at + needle.len() <= text.len(),
    ensures
        yes == occurs_at(text@, needle@, at as int),
{
    let mut i: usize = 0;
    while i < needle.len()
        invariant
            at + needle.len() <= text.len(),
            i <= needle.len(),
            forall|j: int| 0 <= j < i ==> text@[at + j] == needle@[j],
        decreases needle.len() - i,
    {
        if text[at + i] != needle[i] {
            assert(text@.subrange(at as int, at + needle.len())[i as int] != needle@[i as int]);
            return false;
        }
        i += 1;
    }
    assert(text@.subrange(at as int, at + needle.len()) == needle@);
    true
}

/// Whether `needle` stands anywhere in `text`.
pub fn contains(text: &str, needle: &str) -> (yes: bool)
    ensures
        yes == occurs_in(text@, needle@),
{
    let hay = chars_of(text);
    let pin = chars_of(needle);
    if pin.len() > hay.len() {
        return false;
    }
    let last: usize = hay.len() - pin.len();
    let mut at: usize = 0;
    while at <= last
        invariant
            hay@ == text@,
            pin@ == needle@,
            last == hay.len() - pin.len(),
            at <= last + 1,
            forall|j: int| 0 <= j < at ==> !occurs_at(text@, needle@, j),
        decreases last + 1 - at,
    {
        if stands_at(&hay, &pin, at) {
            return true;
        }
        if at == last {
            return false;
        }
        at += 1;
    }
    false
}

/// Whether the two texts are the same.
pub fn same_text(a: &str, b: &str) -> (yes: bool)
    ensures
        yes == (a@ == b@),
{
    let left = chars_of(a);
    let right = chars_of(b);
    if left.len() != right.len() {
        return false;
    }
    let yes = stands_at(&left, &right, 0);
    assert(left@.subrange(0, left@.len() as int) == left@);
    yes
}

/// What follows `prefix` in `text`, or nothing where `text` does not begin with it.
pub open spec fn after_prefix(text: Seq<char>, prefix: Seq<char>) -> Option<Seq<char>> {
    if occurs_at(text, prefix, 0) {
        Some(text.skip(prefix.len() as int))
    } else {
        None
    }
}

/// What follows `prefix` in `text`, or nothing where `text` does not begin with it.
pub fn strip_prefix<'a>(text: &'a str, prefix: &str) -> (rest: Option<&'a str>)
    ensures
        rest.deep_view() == after_prefix(text@, prefix@),
{
    let hay = chars_of(text);
    let pin = chars_of(prefix);
    if pin.len() <= hay.len() && stands_at(&hay, &pin, 0) {
        Some(text.substring_char(pin.len(), hay.len()))
    } else {
        None
    }
}

/// `c` as a lower-case letter where it is an upper-case ASCII letter, else `c`.
pub open spec fn ascii_lower(c: char) -> char {
    if 'A' <= c <= 'Z' {
        (c as u8 + 32) as char
    } else {
        c
    }
}

/// `s` with its upper-case ASCII letters as lower-case ones.
pub open spec fn lowered(s: Seq<char>) -> Seq<char> {
    s.map_values(|c: char| ascii_lower(c))
}

/// `s` with its upper-case ASCII letters as lower-case ones.
pub fn to_ascii_lowercase(s: &str) -> (r: String)
    ensures
        r@ == lowered(s@),
{
    let mut r = String::new();
    for c in it: s.chars()
        invariant
            it.seq() == s@,
            r@ == lowered(s@.take(it.index())),
    {
        assert(s@.take(it.index() + 1) == s@.take(it.index()).push(c));
        let lower: char = if 'A' <= c && c <= 'Z' {
            (c as u8 + 32) as char
        } else {
            c
        };
        r.push(lower);
        assert(r@ == lowered(s@.take(it.index() + 1)));
    }
    assert(s@.take(s@.len() as int) == s@);
    r
}

/// `s` with every `mark` in it written twice.
pub open spec fn doubled(s: Seq<char>, mark: char) -> Seq<char>
    decreases s.len(),
{
    if s.len() == 0 {
        s
    } else if s.last() == mark {
        doubled(s.drop_last(), mark).push(mark).push(mark)
    } else {
        doubled(s.drop_last(), mark).push(s.last())
    }
}

/// `s` with every `mark` in it written twice.
pub fn double(s: &str, mark: char) -> (r: String)
    ensures
        r@ == doubled(s@, mark),
{
    let mut r = String::new();
    for c in it: s.chars()
        invariant
            it.seq() == s@,
            r@ == doubled(s@.take(it.index()), mark),
    {
        assert(s@.take(it.index() + 1).drop_last() == s@.take(it.index()));
        r.push(c);
        if c == mark {
            r.push(mark);
        }
    }
    assert(s@.take(s@.len() as int) == s@);
    r
}

/// Whether `c` is one of the ten ASCII digits.
pub open spec fn is_digit(c: char) -> bool {
    '0' <= c <= '9'
}

/// The number that the digits of `s` write in base ten.
pub open spec fn decimal(s: Seq<char>) -> nat
    decreases s.len(),
{
    if s.len() == 0 {
        0
    } else {
        decimal(s.drop_last()) * 10 + (s.last() as nat - '0' as nat) as nat
    }
}

/// `s` without the plus sign that it may begin with.
pub open spec fn without_plus(s: Seq<char>) -> Seq<char> {
    if s.len() > 0 && s[0] == '+' {
        s.drop_first()
    } else {
        s
    }
}

/// The number that `s` writes: digits, at least one, after an optional plus sign.
pub open spec fn unsigned(s: Seq<char>) -> Option<nat> {
    let digits = without_plus(s);
    if digits.len() > 0 && (forall|i: int| 0 <= i < digits.len() ==> is_digit(#[trigger] digits[i])) {
        Some(decimal(digits))
    } else {
        None
    }
}

/// The number that `s` writes, where it is at most `max`.
pub open spec fn unsigned_up_to(s: Seq<char>, max: nat) -> Option<nat> {
    match unsigned(s) {
        Some(n) => if n <= max {
            Some(n)
        } else {
            None
        },
        None => None,
    }
}

/// The digits at the beginning write no more than all of them.
proof fn lemma_decimal_grows(s: Seq<char>, k: int)
    requires
        0 <= k <= s.len(),
        forall|i: int| 0 <= i < s.len() ==> is_digit(#[trigger] s[i]),
    ensures
        decimal(s.take(k)) <= decimal(s),
    decreases s.len() - k,
{
    if k < s.len() {
        lemma_decimal_grows(s, k + 1);
        assert(s.take(k + 1).drop_last() == s.take(k));
    } else {
        assert(s.take(k) == s);
    }
}

/// The number that `s` writes, where it is at most `max`.
fn parse_up_to(s: &str, max: u64) -> (n: Option<u64>)
    ensures
        n is Some <==> unsigned_up_to(s@, max as nat) is Some,
        n matches Some(v) ==> unsigned_up_to(s@, max as nat) == Some(v as nat),
{
    let chars = chars_of(s);
    let start: usize = if chars.len() > 0 && chars[0] == '+' {
        1
    } else {
        0
    };
    let ghost digits = without_plus(s@);
    if chars.len() == start {
        return None;
    }
    let mut value: u64 = 0;
    let mut i: usize = start;
    while i < chars.len()
        invariant
            chars@ == s@,
            digits == without_plus(s@),
            digits == s@.skip(start as int),
            start <= i <= chars.len(),
            value <= max,
            value == decimal(digits.take(i - start)),
            forall|j: int| 0 <= j < i - start ==> is_digit(#[trigger] digits[j]),
        decreases chars.len() - i,
    {
        let c = chars[i];
        assert(digits[i - start] == c);
        if c < '0' || '9' < c {
            return None;
        }
        let digit: u64 = (c as u32 - '0' as u32) as u64;
        assert(digits.take(i - start + 1).drop_last() == digits.take(i - start));
        if digit > max || value > (max - digit) / 10 {
            proof {
                if unsigned(s@) is Some {
                    lemma_decimal_grows(digits, i - start + 1);
                }
            }
            return None;
        }
        value = value * 10 + digit;
        i += 1;
    }
    assert(digits.take(i - start) == digits);
    Some(value)
}

/// The number of 64 bits that `s` writes.
pub fn parse_u64(s: &str) -> (n: Option<u64>)
    ensures
        n is Some <==> unsigned_up_to(s@, u64::MAX as nat) is Some,
        n matches Some(v) ==> unsigned_up_to(s@, u64::MAX as nat) == Some(v as nat),
{
    parse_up_to(s, u64::MAX)
}

/// The machine-sized number that `s` writes.
pub fn parse_usize(s: &str) -> (n: Option<usize>)
    ensures
        n is Some <==> unsigned_up_to(s@, usize::MAX as nat) is Some,
        n matches Some(v) ==> unsigned_up_to(s@, usize::MAX as nat) == Some(v as nat),
{
    match parse_up_to(s, usize::MAX as u64) {
        Some(n) => Some(n as usize),
        None => None,
    }
}

/// The digit that writes `n % 10`.
pub open spec fn last_digit(n: nat) -> char {
    (n % 10 + '0' as nat) as char
}

/// The digits that write `n` in base ten, without leading zeros.
pub open spec fn decimal_text(n: nat) -> Seq<char>
    decreases n,
{
    if n < 10 {
        seq![last_digit(n)]
    } else {
        decimal_text(n / 10).push(last_digit(n))
    }
}

/// The digits that write `n` in base ten, without leading zeros.
pub fn number_text(n: u64) -> (r: String)
    ensures
        r@ == decimal_text(n as nat),
    decreases n,
{
    let digit: char = ((n % 10) as u8 + 48) as char;
    let mut r = if n < 10 {
        String::new()
    } else {
        number_text(n / 10)
    };
    r.push(digit);
    r
}

/// What stands between two quotation marks, and what follows the second, in a
/// text that begins after the first. A mark written twice stands for itself.
/// Nothing, where the second mark is missing.
pub open spec fn read_quoted(text: Seq<char>, mark: char) -> Option<(Seq<char>, Seq<char>)>
    decreases text.len(),
{
    if text.len() == 0 {
        None
    } else if text[0] != mark {
        match read_quoted(text.drop_first(), mark) {
            Some((content, rest)) => Some((seq![text[0]] + content, rest)),
            None => None,
        }
    } else if text.len() > 1 && text[1] == mark {
        match read_quoted(text.skip(2), mark) {
            Some((content, rest)) => Some((seq![mark] + content, rest)),
            None => None,
        }
    } else {
        Some((Seq::empty(), text.drop_first()))
    }
}

/// How the first character of a text is doubled.
proof fn lemma_doubled_from_the_front(s: Seq<char>, mark: char)
    requires
        s.len() > 0,
    ensures
        s[0] == mark ==> doubled(s, mark) == seq![mark, mark] + doubled(s.drop_first(), mark),
        s[0] != mark ==> doubled(s, mark) == seq![s[0]] + doubled(s.drop_first(), mark),
    decreases s.len(),
{
    if s.len() == 1 {
        assert(s.drop_first() == Seq::<char>::empty());
        assert(s.drop_last() == Seq::<char>::empty());
        assert(doubled(Seq::<char>::empty(), mark) == Seq::<char>::empty());
        assert(doubled(s, mark) =~= if s[0] == mark {
            seq![mark, mark]
        } else {
            seq![s[0]]
        });
    } else {
        lemma_doubled_from_the_front(s.drop_last(), mark);
        assert(s.drop_last().drop_first() == s.drop_first().drop_last());
        let head = if s[0] == mark {
            seq![mark, mark]
        } else {
            seq![s[0]]
        };
        let inner = doubled(s.drop_first().drop_last(), mark);
        assert(doubled(s.drop_last(), mark) == head + inner);
        assert((head + inner).push(mark).push(mark) == head + inner.push(mark).push(mark));
        assert((head + inner).push(s.last()) == head + inner.push(s.last()));
    }
}

/// Doubling the marks in a text and closing it with one more mark loses nothing:
/// reading gives back the text, and stops where it ended, as long as what
/// follows does not itself begin with the mark.
pub proof fn law_doubled_text_reads_back(s: Seq<char>, mark: char, rest: Seq<char>)
    requires
        rest.len() == 0 || rest[0] != mark,
    ensures
        read_quoted(doubled(s, mark).push(mark) + rest, mark) == Some((s, rest)),
    decreases s.len(),
{
    let text = doubled(s, mark).push(mark) + rest;
    if s.len() == 0 {
        assert(text.drop_first() == rest);
        assert(s == Seq::<char>::empty());
    } else {
        lemma_doubled_from_the_front(s, mark);
        law_doubled_text_reads_back(s.drop_first(), mark, rest);
        let tail = doubled(s.drop_first(), mark).push(mark) + rest;
        assert(seq![s[0]] + s.drop_first() == s);
        if s[0] == mark {
            assert(text == seq![mark, mark] + tail);
            assert(text.skip(2) == tail);
        } else {
            assert(text == seq![s[0]] + tail);
            assert(text.drop_first() == tail);
        }
    }
}

/// Trimming a second time changes nothing.
pub proof fn law_trimming_is_idempotent(s: Seq<char>)
    ensures
        trimmed(trimmed(s)) == trimmed(s),
{
    let front = without_leading_space(s);
    lemma_leading_space_is_gone(s);
    lemma_trailing_space_is_gone(front);
}

/// What is left after the leading white space does not begin with any.
proof fn lemma_leading_space_is_gone(s: Seq<char>)
    ensures
        without_leading_space(s).len() > 0 ==> !is_white_space(without_leading_space(s)[0]),
    decreases s.len(),
{
    if s.len() > 0 && is_white_space(s[0]) {
        lemma_leading_space_is_gone(s.drop_first());
    }
}

/// What is left before the trailing white space does not end with any, and
/// begins as the text did.
proof fn lemma_trailing_space_is_gone(s: Seq<char>)
    ensures
        without_trailing_space(s).len() > 0 ==> !is_white_space(without_trailing_space(s).last()),
        without_trailing_space(s).len() > 0 ==> without_trailing_space(s)[0] == s[0],
    decreases s.len(),
{
    if s.len() > 0 && is_white_space(s.last()) {
        lemma_trailing_space_is_gone(s.drop_last());
    }
}

/// A text that begins with something other than white space does not trim to
/// nothing.
pub proof fn lemma_visible_text_is_kept(s: Seq<char>)
    requires
        s.len() > 0,
        !is_white_space(s[0]),
    ensures
        trimmed(s).len() > 0,
{
    lemma_first_character_is_kept(s);
}

proof fn lemma_first_character_is_kept(s: Seq<char>)
    requires
        s.len() > 0,
        !is_white_space(s[0]),
    ensures
        without_trailing_space(s).len() > 0,
    decreases s.len(),
{
    if is_white_space(s.last()) {
        lemma_first_character_is_kept(s.drop_last());
    }
}

/// The decimal text of a number reads back as that number.
pub proof fn law_number_text_reads_back(n: nat)
    ensures
        unsigned(decimal_text(n)) == Some(n),
{
    lemma_decimal_text(n);
}

proof fn lemma_decimal_text(n: nat)
    ensures
        decimal_text(n).len() > 0,
        forall|i: int| 0 <= i < decimal_text(n).len() ==> is_digit(#[trigger] decimal_text(n)[i]),
        decimal(decimal_text(n)) == n,
    decreases n,
{
    let text = decimal_text(n);
    if n < 10 {
        assert(text.drop_last() == Seq::<char>::empty());
        assert(decimal(text.drop_last()) == 0);
    } else {
        lemma_decimal_text(n / 10);
        assert(text.drop_last() == decimal_text(n / 10));
    }
}

/// The decimal text of a number holds no white space at its ends.
pub proof fn lemma_number_text_is_trimmed(n: nat)
    ensures
        trimmed(decimal_text(n)) == decimal_text(n),
{
    lemma_decimal_text(n);
}

/// Trimming takes white space off the two ends, all that is there, and nothing
/// else.
pub proof fn law_trimming_takes_off_the_ends(s: Seq<char>) -> (ends: (Seq<char>, Seq<char>))
    ensures
        s == ends.0 + trimmed(s) + ends.1,
        forall|i: int| 0 <= i < ends.0.len() ==> is_white_space(#[trigger] ends.0[i]),
        forall|i: int| 0 <= i < ends.1.len() ==> is_white_space(#[trigger] ends.1[i]),
        trimmed(s).len() > 0 ==> !is_white_space(trimmed(s)[0]) && !is_white_space(
            trimmed(s).last(),
        ),
{
    let front = without_leading_space(s);
    lemma_leading_space_is_gone(s);
    lemma_trailing_space_is_gone(front);
    let before = lemma_leading_space(s);
    let after = lemma_trailing_space(front);
    assert(s == before + trimmed(s) + after);
    (before, after)
}

/// What is taken off at the front.
proof fn lemma_leading_space(s: Seq<char>) -> (before: Seq<char>)
    ensures
        s == before + without_leading_space(s),
        forall|i: int| 0 <= i < before.len() ==> is_white_space(#[trigger] before[i]),
    decreases s.len(),
{
    if s.len() > 0 && is_white_space(s[0]) {
        let more = lemma_leading_space(s.drop_first());
        let before = seq![s[0]] + more;
        let rest = without_leading_space(s.drop_first());
        assert(s == seq![s[0]] + s.drop_first());
        assert(seq![s[0]] + (more + rest) == before + rest);
        before
    } else {
        assert(s == Seq::<char>::empty() + s);
        Seq::empty()
    }
}

/// What is taken off at the back.
proof fn lemma_trailing_space(s: Seq<char>) -> (after: Seq<char>)
    ensures
        s == without_trailing_space(s) + after,
        forall|i: int| 0 <= i < after.len() ==> is_white_space(#[trigger] after[i]),
    decreases s.len(),
{
    if s.len() > 0 && is_white_space(s.last()) {
        let more = lemma_trailing_space(s.drop_last());
        let after = more.push(s.last());
        let rest = without_trailing_space(s.drop_last());
        assert(s == s.drop_last().push(s.last()));
        assert((rest + more).push(s.last()) == rest + after);
        after
    } else {
        assert(s == s + Seq::<char>::empty());
        Seq::empty()
    }
}

/// A text is found wherever it stands.
pub proof fn law_standing_text_is_found(
    before: Seq<char>,
    needle: Seq<char>,
    after: Seq<char>,
)
    ensures
        occurs_in(before + needle + after, needle),
{
    let text = before + needle + after;
    let at = before.len() as int;
    assert(text.subrange(at, at + needle.len()) == needle);
    assert(occurs_at(text, needle, at));
}

/// A text that is found stands somewhere.
pub proof fn law_found_text_stands_somewhere(text: Seq<char>, needle: Seq<char>) -> (around: (
    Seq<char>,
    Seq<char>,
))
    requires
        occurs_in(text, needle),
    ensures
        text == around.0 + needle + around.1,
{
    let at = choose|at: int| occurs_at(text, needle, at);
    let around = (text.take(at), text.skip(at + needle.len()));
    assert(needle == text.subrange(at, at + needle.len()));
    assert(text == around.0 + needle + around.1);
    around
}

/// What follows a prefix is what stands behind it.
pub proof fn law_prefix_is_taken_off(prefix: Seq<char>, rest: Seq<char>)
    ensures
        after_prefix(prefix + rest, prefix) == Some(rest),
{
    let text = prefix + rest;
    assert(text.subrange(0, prefix.len() as int) == prefix);
    assert(occurs_at(text, prefix, 0));
    assert(text.skip(prefix.len() as int) == rest);
}

/// Something follows a prefix only where the text begins with that prefix.
pub proof fn law_prefix_was_there(text: Seq<char>, prefix: Seq<char>)
    requires
        after_prefix(text, prefix) is Some,
    ensures
        text == prefix + after_prefix(text, prefix)->0,
{
    assert(prefix == text.subrange(0, prefix.len() as int));
    assert(text == prefix + text.skip(prefix.len() as int));
}

/// Lowering moves the letters from `A` to `Z` to those from `a` to `z`, and leaves
/// every other character as it is.
pub proof fn law_lowering_changes_ascii_letters_only(s: Seq<char>)
    ensures
        lowered(s).len() == s.len(),
        forall|i: int|
            0 <= i < s.len() ==> #[trigger] lowered(s)[i] as int == if 65 <= s[i] as int <= 90 {
                s[i] as int + 32
            } else {
                s[i] as int
            },
{
}

/// Doubling goes character by character: a mark becomes two marks, and every other
/// character stays.
pub proof fn law_doubling_goes_by_character(a: Seq<char>, b: Seq<char>, c: char, mark: char)
    ensures
        doubled(a + b, mark) == doubled(a, mark) + doubled(b, mark),
        doubled(seq![mark], mark) == seq![mark, mark],
        c != mark ==> doubled(seq![c], mark) == seq![c],
        doubled(Seq::<char>::empty(), mark) == Seq::<char>::empty(),
    decreases b.len(),
{
    assert(seq![mark].drop_last() == Seq::<char>::empty());
    assert(seq![c].drop_last() == Seq::<char>::empty());
    assert(doubled(Seq::<char>::empty(), mark) == Seq::<char>::empty());
    assert(doubled(seq![mark], mark) == seq![mark, mark]);
    assert(c != mark ==> doubled(seq![c], mark) == seq![c]);
    if b.len() == 0 {
        assert(a + b == a);
    } else {
        law_doubling_goes_by_character(a, b.drop_last(), c, mark);
        assert((a + b).drop_last() == a + b.drop_last());
    }
}

/// Each further digit counts the digits before it ten times.
pub proof fn law_digits_count_in_tens(s: Seq<char>, c: char)
    requires
        48 <= c as int <= 57,
    ensures
        decimal(Seq::<char>::empty()) == 0,
        decimal(s.push(c)) == 10 * decimal(s) + (c as int - 48),
{
    assert(s.push(c).drop_last() == s);
}

/// Digits, at least one, are a number, with a plus sign before them or without.
pub proof fn law_digits_are_a_number(digits: Seq<char>)
    requires
        digits.len() > 0,
        forall|i: int| 0 <= i < digits.len() ==> 48 <= #[trigger] digits[i] as int <= 57,
    ensures
        unsigned(digits) == Some(decimal(digits)),
        unsigned(seq!['+'] + digits) == Some(decimal(digits)),
{
    assert((seq!['+'] + digits).drop_first() == digits);
    assert(48 <= digits[0] as int <= 57);
    assert(without_plus(digits) == digits);
    assert(without_plus(seq!['+'] + digits) == digits);
}

/// Nothing but digits, at least one, after an optional plus sign, is a number.
pub proof fn law_only_digits_are_a_number(s: Seq<char>)
    requires
        unsigned(s) is Some,
    ensures
        s.len() > 0,
        48 <= s[0] as int <= 57 || (s[0] == '+' && s.len() > 1),
        forall|i: int| 0 < i < s.len() ==> 48 <= #[trigger] s[i] as int <= 57,
{
    let digits = without_plus(s);
    assert(is_digit(digits[0]));
    assert forall|i: int| 0 < i < s.len() implies 48 <= #[trigger] s[i] as int <= 57 by {
        if s[0] == '+' {
            assert(is_digit(digits[i - 1]));
        } else {
            assert(is_digit(digits[i]));
        }
    }
}

/// A bound keeps the numbers up to it, as they are, and no others.
pub proof fn law_bound_keeps_smaller_numbers(s: Seq<char>, max: nat, n: nat)
    ensures
        unsigned_up_to(s, max) == Some(n) <==> unsigned(s) == Some(n) && n <= max,
{
}

/// The decimal text of a number is made of digits that write that number, and does
/// not begin with a zero unless it is the zero.
pub proof fn law_number_text_is_plain(n: nat)
    ensures
        forall|i: int|
            0 <= i < decimal_text(n).len() ==> 48 <= #[trigger] decimal_text(n)[i] as int <= 57,
        decimal(decimal_text(n)) == n,
        n == 0 ==> decimal_text(n) == seq!['0'],
        n > 0 ==> decimal_text(n).len() > 0 && decimal_text(n)[0] != '0',
{
    lemma_decimal_text(n);
    lemma_no_leading_zero(n);
    assert forall|i: int| 0 <= i < decimal_text(n).len() implies 48 <= #[trigger] decimal_text(
        n,
    )[i] as int <= 57 by {
        assert(is_digit(decimal_text(n)[i]));
    }
}

proof fn lemma_no_leading_zero(n: nat)
    ensures
        n > 0 ==> decimal_text(n).len() > 0 && decimal_text(n)[0] != '0',
    decreases n,
{
    if n >= 10 {
        lemma_no_leading_zero(n / 10);
    }
}

} // verus!
