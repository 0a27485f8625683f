//! Text as sequences of characters: trimming, comparing, splitting and joining.

use vstd::prelude::*;
use vstd::string::{StrSliceExecFns, StringExecFns};

verus! {

/// The characters with the Unicode property `White_Space`.
pub open spec fn is_white_space(c: char) -> bool {
    let n = c as u32;
    ||| 0x09 <= n <= 0x0d
    ||| n == 0x20
    ||| n == 0x85
    ||| n == 0xa0
    ||| n == 0x1680
    ||| 0x2000 <= n <= 0x200a
    ||| n == 0x2028
    ||| n == 0x2029
    ||| n == 0x202f
    ||| n == 0x205f
    ||| n == 0x3000
}

/// `s` without the longest prefix whose characters all satisfy `drop`.
pub open spec fn strip_start(s: Seq<char>, drop: spec_fn(char) -> bool) -> Seq<char>
    decreases s.len(),
{
    if s.len() > 0 && drop(s.first()) {
        strip_start(s.drop_first(), drop)
    } else {
        s
    }
}

/// `s` without the longest suffix whose characters all satisfy `drop`.
pub open spec fn strip_end(s: Seq<char>, drop: spec_fn(char) -> bool) -> Seq<char>
    decreases s.len(),
{
    if s.len() > 0 && drop(s.last()) {
        strip_end(s.drop_last(), drop)
    } else {
        s
    }
}

/// `s` without leading and trailing white space.
pub open spec fn trimmed(s: Seq<char>) -> Seq<char> {
    strip_end(strip_start(s, |c: char| is_white_space(c)), |c: char| is_white_space(c))
}

/// Nothing but white space.
pub open spec fn is_blank(s: Seq<char>) -> bool {
    trimmed(s).len() == 0
}

/// The position of the last `/` in `s`.
pub open spec fn last_slash(s: Seq<char>) -> Option<int>
    decreases s.len(),
{
    if s.len() == 0 {
        None
    } else if s.last() == '/' {
        Some(s.len() - 1)
    } else {
        last_slash(s.drop_last())
    }
}

/// The decimal digit of `d`, for `d` below ten.
pub open spec fn digit(d: nat) -> char {
    (48 + d) as char
}

/// `n` in decimal, without leading zeros.
pub open spec fn decimal(n: nat) -> Seq<char>
    decreases n,
{
    if n < 10 {
        seq![digit(n)]
    } else {
        decimal(n / 10).push(digit(n % 10))
    }
}

/// Nothing but the ASCII digits `0` to `9`.
pub open spec fn all_digits(s: Seq<char>) -> bool {
    forall|i: int| 0 <= i < s.len() ==> '0' <= #[trigger] s[i] <= '9'
}

/// The parts in order, with `separator` between each two neighbours.
pub open spec fn joined(parts: Seq<Seq<char>>, separator: Seq<char>) -> Seq<char>
    decreases parts.len(),
{
    if parts.len() == 0 {
        Seq::empty()
    } else if parts.len() == 1 {
        parts[0]
    } else {
        joined(parts.drop_last(), separator) + separator + parts.last()
    }
}

/// The characters of each of `texts`.
pub open spec fn views(texts: Seq<String>) -> Seq<Seq<char>> {
    texts.map_values(|text: String| text@)
}

/// The characters of an optional text.
pub open spec fn optional_view(text: Option<String>) -> Option<Seq<char>> {
    match text {
        Some(text) => Some(text@),
        None => None,
    }
}

/// The characters of an optional borrowed text.
pub open spec fn optional_str_view(text: Option<&str>) -> Option<Seq<char>> {
    match text {
        Some(text) => Some(text@),
        None => None,
    }
}

fn white_space(c: char) -> (r: bool)
    ensures
        r == is_white_space(c),
{
    let n: u32 = c as u32;
    (0x09 <= n && n <= 0x0d) || n == 0x20 || n == 0x85 || n == 0xa0 || n == 0x1680 || (0x2000 <= n
        && n <= 0x200a) || n == 0x2028 || n == 0x2029 || n == 0x202f || n == 0x205f || n == 0x3000
}

/// `text` without leading and trailing white space.
pub fn trim<'a>(text: &'a str) -> (r: &'a str)
    ensures
        r@ == trimmed(text@),
{
    let ghost drop = |c: char| is_white_space(c);
    let len: usize = text.unicode_len();
    let mut start: usize = 0;
    assert(text@.skip(0) =~= text@);
    while start < len && white_space(text.get_char(start))
        invariant
            start <= len,
            len == text@.len(),
            drop == (|c: char| is_white_space(c)),
            strip_start(text@, drop) == strip_start(text@.skip(start as int), drop),
        decreases len - start,
    {
        proof {
            let rest = text@.skip(start as int);
            assert(rest.drop_first() =~= text@.skip(start + 1));
        }
        start = start + 1;
    }
    let ghost head = text@.skip(start as int);
    let mut end: usize = len;
    while end > start && white_space(text.get_char(end - 1))
        invariant
            start <= end <= len,
            len == text@.len(),
            drop == (|c: char| is_white_space(c)),
            strip_end(head, drop) == strip_end(text@.subrange(start as int, end as int), drop),
        decreases end - start,
    {
        proof {
            let rest = text@.subrange(start as int, end as int);
            assert(rest.drop_last() =~= text@.subrange(start as int, end - 1));
        }
        end = end - 1;
    }
    proof {
        let rest = text@.subrange(start as int, end as int);
        if rest.len() > 0 {
            assert(rest.last() == text@[end - 1]);
        }
    }
    text.substring_char(start, end)
}

/// Whether `text` is nothing but white space.
pub fn blank(text: &str) -> (r: bool)
    ensures
        r == is_blank(text@),
{
    trim(text).is_empty()
}

/// `path` without its trailing slashes.
pub fn trim_end_slashes<'a>(path: &'a str) -> (r: &'a str)
    ensures
        r@ == strip_end(path@, |c: char| c == '/'),
{
    let ghost drop = |c: char| c == '/';
    let mut end: usize = path.unicode_len();
    assert(path@.take(end as int) =~= path@);
    while end > 0 && path.get_char(end - 1) == '/'
        invariant
            end <= path@.len(),
            drop == (|c: char| c == '/'),
            strip_end(path@, drop) == strip_end(path@.take(end as int), drop),
        decreases end,
    {
        proof {
            let rest = path@.take(end as int);
            assert(rest.drop_last() =~= path@.take(end - 1));
        }
        end = end - 1;
    }
    path.substring_char(0, end)
}

/// The position of the last `/` in `path`, counted in characters.
pub fn find_last_slash(path: &str) -> (r: Option<usize>)
    ensures
        match r {
            Some(i) => last_slash(path@) == Some(i as int),
            None => last_slash(path@) is None,
        },
{
    let mut end: usize = path.unicode_len();
    assert(path@.take(end as int) =~= path@);
    while end > 0
        invariant
            end <= path@.len(),
            last_slash(path@) == last_slash(path@.take(end as int)),
        decreases end,
    {
        proof {
            let rest = path@.take(end as int);
            assert(rest.drop_last() =~= path@.take(end - 1));
        }
        if path.get_char(end - 1) == '/' {
            return Some(end - 1);
        }
        end = end - 1;
    }
    None
}

/// Whether two texts hold the same characters.
pub fn same_text(a: &str, b: &str) -> (r: bool)
    ensures
        r == (a@ == b@),
{
    let left: &[u8] = a.as_bytes();
    let right: &[u8] = b.as_bytes();
    proof {
        vstd::utf8::encode_utf8_decode_utf8(a@);
        vstd::utf8::encode_utf8_decode_utf8(b@);
    }
    if left.len() != right.len() {
        return false;
    }
    let mut i: usize = 0;
    while i < left.len()
        invariant
            i <= left.len(),
            left.len() == right.len(),
            left@ == vstd::utf8::encode_utf8(a@),
            right@ == vstd::utf8::encode_utf8(b@),
            forall|j: int| 0 <= j < i ==> left@[j] == right@[j],
        decreases left.len() - i,
    {
        if left[i] != right[i] {
            return false;
        }
        i = i + 1;
    }
    assert(left@ =~= right@);
    true
}

/// Where a text stands in a list.
pub fn find_text(texts: &Vec<String>, text: &str) -> (r: Option<usize>)
    ensures
        match r {
            Some(i) => i < texts@.len() && views(texts@)[i as int] == text@ && forall|j: int|
                0 <= j < i ==> #[trigger] views(texts@)[j] != text@,
            None => !views(texts@).contains(text@),
        },
{
    let mut i: usize = 0;
    while i < texts.len()
        invariant
            i <= texts.len(),
            forall|j: int| 0 <= j < i ==> #[trigger] views(texts@)[j] != text@,
        decreases texts.len() - i,
    {
        assert(views(texts@)[i as int] == texts@[i as int]@);
        if same_text(texts[i].as_str(), text) {
            return Some(i);
        }
        i = i + 1;
    }
    None
}

/// What follows `prefix` in `text`, if `text` starts with it.
pub fn strip_prefix<'a>(text: &'a str, prefix: &str) -> (r: Option<&'a str>)
    ensures
        match r {
            Some(rest) => prefix@.is_prefix_of(text@) && rest@ == text@.skip(
                prefix@.len() as int,
            ),
            None => !prefix@.is_prefix_of(text@),
        },
{
    let len: usize = text.unicode_len();
    let size: usize = prefix.unicode_len();
    if size > len {
        return None;
    }
    let head: &str = text.substring_char(0, size);
    if same_text(head, prefix) {
        let rest: &str = text.substring_char(size, len);
        Some(rest)
    } else {
        None
    }
}

/// Whether `text` starts with the character `c`.
pub fn starts_with(text: &str, c: char) -> (r: bool)
    ensures
        r == (text@.len() > 0 && text@[0] == c),
{
    !text.is_empty() && text.get_char(0) == c
}

/// Whether the first `end` characters of `text` are `n` in decimal.
fn prefix_is_decimal(text: &str, end: usize, n: u32) -> (r: bool)
    requires
        end <= text@.len(),
    ensures
        r == (text@.take(end as int) == decimal(n as nat)),
    decreases n,
{
    let ghost head = text@.take(end as int);
    if end == 0 {
        return false;
    }
    let last: char = text.get_char(end - 1);
    let digit_matches: bool = last as u32 == 48 + n % 10;
    proof {
        assert(head.last() == last);
        assert(head.drop_last() =~= text@.take(end - 1));
        assert(head =~= head.drop_last().push(last));
    }
    if n < 10 {
        assert(end == 1 && digit_matches ==> head =~= seq![digit(n as nat)]);
        end == 1 && digit_matches
    } else {
        let rest: bool = prefix_is_decimal(text, end - 1, n / 10);
        proof {
            let whole = decimal(n as nat);
            assert(whole.drop_last() =~= decimal((n / 10) as nat));
        }
        digit_matches && rest
    }
}

/// Whether `text` is `n` in decimal, without leading zeros.
pub fn is_decimal(text: &str, n: u32) -> (r: bool)
    ensures
        r == (text@ == decimal(n as nat)),
{
    let len: usize = text.unicode_len();
    assert(text@.take(len as int) =~= text@);
    prefix_is_decimal(text, len, n)
}

/// Whether `text` is nothing but ASCII digits.
pub fn is_all_digits(text: &str) -> (r: bool)
    ensures
        r == all_digits(text@),
{
    let len: usize = text.unicode_len();
    let mut i: usize = 0;
    while i < len
        invariant
            i <= len,
            len == text@.len(),
            forall|j: int| 0 <= j < i ==> '0' <= #[trigger] text@[j] <= '9',
        decreases len - i,
    {
        let c: char = text.get_char(i);
        if c < '0' || '9' < c {
            return false;
        }
        i = i + 1;
    }
    true
}

/// The parts in order, with `separator` between each two neighbours.
pub fn join(parts: &Vec<String>, separator: &str) -> (r: String)
    ensures
        r@ == joined(views(parts@), separator@),
{
    let mut text: String = String::new();
    let mut i: usize = 0;
    while i < parts.len()
        invariant
            i <= parts.len(),
            text@ == joined(views(parts@).take(i as int), separator@),
        decreases parts.len() - i,
    {
        proof {
            let next = views(parts@).take(i + 1);
            assert(next.drop_last() =~= views(parts@).take(i as int));
        }
        if i > 0 {
            text.append(separator);
        }
        text.append(parts[i].as_str());
        i = i + 1;
    }
    assert(views(parts@).take(i as int) =~= views(parts@));
    text
}

proof fn lemma_strip_start(s: Seq<char>, drop: spec_fn(char) -> bool)
    ensures
        strip_start(s, drop).len() > 0 ==> !drop(strip_start(s, drop).first()),
        strip_start(s, drop).len() <= s.len(),
        forall|i: int|
            0 <= i < strip_start(s, drop).len() ==> strip_start(s, drop)[i] == #[trigger] s[i
                + s.len() - strip_start(s, drop).len()],
    decreases s.len(),
{
    if s.len() > 0 && drop(s.first()) {
        lemma_strip_start(s.drop_first(), drop);
        let rest = strip_start(s, drop);
        assert forall|i: int| 0 <= i < rest.len() implies rest[i] == #[trigger] s[i + s.len()
            - rest.len()] by {
            assert(rest[i] == s.drop_first()[i + s.drop_first().len() - rest.len()]);
        }
    }
}

proof fn lemma_strip_end(s: Seq<char>, drop: spec_fn(char) -> bool)
    ensures
        strip_end(s, drop).is_prefix_of(s),
        strip_end(s, drop).len() > 0 ==> !drop(strip_end(s, drop).last()),
    decreases s.len(),
{
    if s.len() > 0 && drop(s.last()) {
        lemma_strip_end(s.drop_last(), drop);
    }
}

/// A trimmed text neither starts nor ends with white space.
pub proof fn lemma_trimmed(s: Seq<char>)
    ensures
        trimmed(s).len() > 0 ==> !is_white_space(trimmed(s).first()) && !is_white_space(
            trimmed(s).last(),
        ),
        trimmed(trimmed(s)) == trimmed(s),
{
    let drop = |c: char| is_white_space(c);
    lemma_strip_start(s, drop);
    lemma_strip_end(strip_start(s, drop), drop);
}

proof fn lemma_strip_lead(lead: Seq<char>, rest: Seq<char>, drop: spec_fn(char) -> bool)
    requires
        forall|i: int| 0 <= i < lead.len() ==> drop(#[trigger] lead[i]),
    ensures
        strip_start(lead + rest, drop) == strip_start(rest, drop),
    decreases lead.len(),
{
    if lead.len() == 0 {
        assert(lead + rest =~= rest);
    } else {
        assert(drop(lead[0]));
        assert((lead + rest).drop_first() =~= lead.drop_first() + rest);
        lemma_strip_lead(lead.drop_first(), rest, drop);
    }
}

/// A tail of characters that are to be dropped does not count.
pub(crate) proof fn lemma_strip_tail(
    rest: Seq<char>,
    tail: Seq<char>,
    drop: spec_fn(char) -> bool,
)
    requires
        forall|i: int| 0 <= i < tail.len() ==> drop(#[trigger] tail[i]),
    ensures
        strip_end(rest + tail, drop) == strip_end(rest, drop),
    decreases tail.len(),
{
    if tail.len() == 0 {
        assert(rest + tail =~= rest);
    } else {
        assert(drop(tail[tail.len() - 1]));
        assert((rest + tail).drop_last() =~= rest + tail.drop_last());
        lemma_strip_tail(rest, tail.drop_last(), drop);
    }
}

/// Trimming takes off the white space at both ends, all of it and nothing else.
pub proof fn trimming_leaves_the_middle(lead: Seq<char>, core: Seq<char>, tail: Seq<char>)
    requires
        forall|i: int| 0 <= i < lead.len() ==> is_white_space(#[trigger] lead[i]),
        forall|i: int| 0 <= i < tail.len() ==> is_white_space(#[trigger] tail[i]),
        core.len() > 0 ==> !is_white_space(core[0]) && !is_white_space(core[core.len() - 1]),
    ensures
        trimmed(lead + core + tail) == core,
{
    let drop = |c: char| is_white_space(c);
    assert(lead + core + tail =~= lead + (core + tail));
    lemma_strip_lead(lead, core + tail, drop);
    if core.len() > 0 {
        assert((core + tail)[0] == core[0]);
        lemma_strip_tail(core, tail, drop);
    } else {
        assert(core + tail =~= tail + core);
        lemma_strip_lead(tail, core, drop);
    }
}

proof fn lemma_nothing_left(s: Seq<char>, drop: spec_fn(char) -> bool)
    requires
        strip_start(s, drop).len() == 0,
    ensures
        forall|i: int| 0 <= i < s.len() ==> drop(#[trigger] s[i]),
    decreases s.len(),
{
    if s.len() > 0 {
        lemma_nothing_left(s.drop_first(), drop);
        assert forall|i: int| 0 <= i < s.len() implies drop(#[trigger] s[i]) by {
            if i > 0 {
                assert(drop(s.drop_first()[i - 1]));
            }
        }
    }
}

proof fn lemma_nothing_kept(s: Seq<char>, drop: spec_fn(char) -> bool)
    requires
        strip_end(s, drop).len() == 0,
    ensures
        s.len() > 0 ==> drop(s[0]),
    decreases s.len(),
{
    if s.len() > 1 {
        lemma_nothing_kept(s.drop_last(), drop);
    }
}

/// A text is blank exactly when each of its characters is white space.
pub proof fn blank_means_white_space_alone(s: Seq<char>)
    ensures
        is_blank(s) <==> forall|i: int| 0 <= i < s.len() ==> is_white_space(#[trigger] s[i]),
{
    let drop = |c: char| is_white_space(c);
    let none = Seq::<char>::empty();
    if forall|i: int| 0 <= i < s.len() ==> is_white_space(#[trigger] s[i]) {
        trimming_leaves_the_middle(s, none, none);
        assert(s + none + none =~= s);
    }
    if is_blank(s) {
        lemma_strip_start(s, drop);
        lemma_nothing_kept(strip_start(s, drop), drop);
        lemma_nothing_left(s, drop);
    }
}

/// White space is what Unicode calls by that name.
pub proof fn white_space_by_name(c: char)
    ensures
        is_white_space(c) <==> (c == ' ' || ('\t' <= c && c <= '\r') || c == '\u{85}' || c
            == '\u{a0}' || c == '\u{1680}' || ('\u{2000}' <= c && c <= '\u{200a}') || c
            == '\u{2028}' || c == '\u{2029}' || c == '\u{202f}' || c == '\u{205f}' || c
            == '\u{3000}'),
{
}

/// A number is written digit by digit, the last digit being what is left over
/// by ten.
pub proof fn numbers_are_written_digit_by_digit(tens: nat, ones: nat)
    requires
        ones < 10,
    ensures
        decimal(ones) == seq![(48 + ones) as char],
        tens > 0 ==> decimal(10 * tens + ones) == decimal(tens).push((48 + ones) as char),
{
    assert((10 * tens + ones) / 10 == tens);
    assert((10 * tens + ones) % 10 == ones);
}

/// Two numbers are never written alike.
pub proof fn no_two_numbers_are_written_alike(one: nat, other: nat)
    requires
        decimal(one) == decimal(other),
    ensures
        one == other,
    decreases one,
{
    lemma_decimal(one);
    lemma_decimal(other);
    if one >= 10 && other >= 10 {
        assert(decimal(one).drop_last() =~= decimal(one / 10));
        assert(decimal(other).drop_last() =~= decimal(other / 10));
        no_two_numbers_are_written_alike(one / 10, other / 10);
    }
}

/// The last digit, and how many there are.
proof fn lemma_decimal(n: nat)
    ensures
        decimal(n).len() > 0,
        decimal(n).len() == 1 <==> n < 10,
        decimal(n).last() == digit(n % 10),
        digit(n % 10) as nat == 48 + n % 10,
    decreases n,
{
    if n >= 10 {
        lemma_decimal(n / 10);
    }
}

/// A text of digits alone has no character outside `0` to `9`.
pub proof fn digits_are_zero_to_nine(s: Seq<char>)
    ensures
        all_digits(s) <==> forall|i: int|
            0 <= i < s.len() ==> 48 <= (#[trigger] s[i]) as int && s[i] as int <= 57,
{
}

/// Joining puts the separator between neighbours and nowhere else.
pub proof fn joining_puts_the_separator_between(
    left: Seq<Seq<char>>,
    right: Seq<Seq<char>>,
    separator: Seq<char>,
    part: Seq<char>,
)
    ensures
        joined(Seq::empty(), separator) == Seq::<char>::empty(),
        joined(seq![part], separator) == part,
        left.len() > 0 && right.len() > 0 ==> joined(left + right, separator) == joined(
            left,
            separator,
        ) + separator + joined(right, separator),
    decreases right.len(),
{
    if left.len() > 0 && right.len() > 0 {
        assert((left + right).drop_last() =~= left + right.drop_last());
        assert((left + right).last() == right.last());
        if right.len() == 1 {
            assert(left + right.drop_last() =~= left);
        } else {
            joining_puts_the_separator_between(left, right.drop_last(), separator, part);
            assert(joined(left, separator) + separator + joined(right, separator) =~= joined(
                left,
                separator,
            ) + separator + joined(right.drop_last(), separator) + separator + right.last());
        }
    }
}

/// A list of texts reads text by text, and an optional text as itself.
pub proof fn texts_read_one_by_one(texts: Seq<String>, text: String, i: int)
    ensures
        views(texts).len() == texts.len(),
        0 <= i < texts.len() ==> views(texts)[i] == texts[i]@,
        optional_view(Some(text)) == Some(text@),
        optional_view(None) is None,
        optional_str_view(None) is None,
{
}

} // verus!
