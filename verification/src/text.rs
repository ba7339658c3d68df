//! Text primitives: character classes, trimming, searching, splitting,
//! ordering and rendering of numbers. Text is modelled as a sequence of
//! characters.
use vstd::prelude::*;

verus! {

/// Trusted: `String::push` appends one character.
pub assume_specification[ String::push ](text: &mut String, c: char)
    ensures
        final(text)@ == old(text)@.push(c),
;

/// The characters with the Unicode property `White_Space`.
pub open spec fn white_space(c: char) -> bool {
    ||| '\u{9}' <= c <= '\u{d}'
    ||| c == '\u{20}'
    ||| c == '\u{85}'
    ||| c == '\u{a0}'
    ||| c == '\u{1680}'
    ||| '\u{2000}' <= c <= '\u{200a}'
    ||| c == '\u{2028}'
    ||| c == '\u{2029}'
    ||| c == '\u{202f}'
    ||| c == '\u{205f}'
    ||| c == '\u{3000}'
}

/// The characters of the Unicode general category `Cc`.
pub open spec fn control(c: char) -> bool {
    c <= '\u{1f}' || '\u{7f}' <= c <= '\u{9f}'
}

/// Trusted: `char::is_control` tells the characters of category `Cc`.
pub assume_specification[ char::is_control ](c: char) -> (answer: bool)
    ensures
        answer == control(c),
;

/// The text from its first character that is not white space on.
pub open spec fn trimmed_start(text: Seq<char>) -> Seq<char>
    decreases text.len(),
{
    if text.len() > 0 && white_space(text[0]) {
        trimmed_start(text.drop_first())
    } else {
        text
    }
}

/// The text up to its last character that is not white space.
pub open spec fn trimmed_end(text: Seq<char>) -> Seq<char>
    decreases text.len(),
{
    if text.len() > 0 && white_space(text.last()) {
        trimmed_end(text.drop_last())
    } else {
        text
    }
}

/// The text without white space at either end.
pub open spec fn trimmed(text: Seq<char>) -> Seq<char> {
    trimmed_end(trimmed_start(text))
}

/// Nothing but white space, or nothing at all.
pub open spec fn blank(text: Seq<char>) -> bool {
    trimmed(text).len() == 0
}

/// Trusted: `str::trim` removes the leading and trailing characters that have
/// the Unicode property `White_Space`.
pub assume_specification[ str::trim ](text: &str) -> (inner: &str)
    ensures
        inner@ == trimmed(text@),
;

/// The ASCII lower-case form of one character.
pub open spec fn ascii_lower(c: char) -> char {
    if 'A' <= c <= 'Z' {
        (c as u32 + 32) as char
    } else {
        c
    }
}

/// Trusted: `str::to_ascii_lowercase` maps the letters `A` to `Z` to `a` to
/// `z` and keeps every other character.
pub assume_specification[ str::to_ascii_lowercase ](text: &str) -> (lower: String)
    ensures
        lower@ == text@.map_values(|c: char| ascii_lower(c)),
;

/// Trusted: `==` on `str` compares the texts.
#[verifier::external_body]
pub(crate) fn same(left: &str, right: &str) -> (answer: bool)
    ensures
        answer == (left@ == right@),
{
    left == right
}

/// What the `Debug` form of a text is: the text in double quotes with its
/// special characters escaped.
pub uninterp spec fn quoted(text: Seq<char>) -> Seq<char>;

/// Trusted: the `Debug` form of a `str` depends on the text alone.
#[verifier::external_body]
pub(crate) fn quote(text: &str) -> (shown: String)
    ensures
        shown@ == quoted(text@),
{
    format!("{text:?}")
}

/// The characters of a text, in order.
pub fn chars_of(text: &str) -> (chars: Vec<char>)
    ensures
        chars@ == text@,
{
    let mut chars: Vec<char> = Vec::new();
    for c in it: text.chars()
        invariant
            it.seq() == text@,
            chars@ == text@.take(it.index()),
    {
        chars.push(c);
        assert(chars@ == text@.take(it.index() + 1));
    }
    chars
}

/// The text that a list of characters spells.
pub fn text_of(chars: &Vec<char>) -> (text: String)
    ensures
        text@ == chars@,
{
    let mut text = String::new();
    let mut i: usize = 0;
    while i < chars.len()
        invariant
            i <= chars.len(),
            text@ == chars@.take(i as int),
        decreases chars.len() - i,
    {
        text.push(chars[i]);
        i = i + 1;
        assert(text@ == chars@.take(i as int));
    }
    text
}

/// A character occurs in a text.
pub fn contains_char(text: &str, wanted: char) -> (answer: bool)
    ensures
        answer == text@.contains(wanted),
{
    let chars = chars_of(text);
    let mut i: usize = 0;
    while i < chars.len()
        invariant
            chars@ == text@,
            i <= chars.len(),
            forall|j: int| 0 <= j < i ==> text@[j] != wanted,
        decreases chars.len() - i,
    {
        if chars[i] == wanted {
            return true;
        }
        i = i + 1;
    }
    false
}

/// A text begins with a prefix.
pub open spec fn begins_with(text: Seq<char>, prefix: Seq<char>) -> bool {
    prefix.len() <= text.len() && text.take(prefix.len() as int) == prefix
}

/// A part stands in a text at a position.
pub open spec fn stands_at(text: Seq<char>, part: Seq<char>, at: int) -> bool {
    0 <= at && at + part.len() <= text.len() && text.subrange(at, at + part.len()) == part
}

/// A part stands somewhere in a text.
pub open spec fn contains_text(text: Seq<char>, part: Seq<char>) -> bool {
    exists|at: int| #[trigger] stands_at(text, part, at)
}

fn matches_at(text: &Vec<char>, part: &Vec<char>, at: usize) -> (answer: bool)
    requires
        at + part.len() <= text.len(),
    ensures
        answer == stands_at(text@, part@, at as int),
{
    let mut i: usize = 0;
    while i < part.len()
        invariant
            at + part.len() <= text.len(),
            i <= part.len(),
            forall|j: int| 0 <= j < i ==> text@[at + j] == part@[j],
        decreases part.len() - i,
    {
        if text[at + i] != part[i] {
            assert(text@.subrange(at as int, at + part.len())[i as int] != part@[i as int]);
            return false;
        }
        i = i + 1;
    }
    assert(text@.subrange(at as int, at + part.len()) =~= part@);
    true
}

/// A text begins with a prefix.
pub fn starts_with(text: &str, prefix: &str) -> (answer: bool)
    ensures
        answer == begins_with(text@, prefix@),
{
    let chars = chars_of(text);
    let head = chars_of(prefix);
    assert(text@.take(prefix@.len() as int) =~= text@.subrange(0, prefix@.len() as int));
    if head.len() > chars.len() {
        false
    } else {
        matches_at(&chars, &head, 0)
    }
}

/// A part stands somewhere in a text.
pub fn contains(text: &str, part: &str) -> (answer: bool)
    ensures
        answer == contains_text(text@, part@),
{
    let chars = chars_of(text);
    let wanted = chars_of(part);
    if wanted.len() > chars.len() {
        return false;
    }
    let last: usize = chars.len() - wanted.len();
    let mut at: usize = 0;
    while at <= last
        invariant
            chars@ == text@,
            wanted@ == part@,
            last + wanted.len() == chars.len(),
            at <= last + 1,
            forall|k: int| 0 <= k < at ==> !#[trigger] stands_at(text@, part@, k),
        decreases last + 1 - at,
    {
        if matches_at(&chars, &wanted, at) {
            return true;
        }
        if at == last {
            assert(forall|k: int| !#[trigger] stands_at(text@, part@, k));
            return false;
        }
        at = at + 1;
    }
    false
}

/// The text after a prefix, where it has that prefix.
pub fn strip_prefix<'a>(text: &'a str, prefix: &str) -> (rest: Option<&'a str>)
    ensures
        match rest {
            Some(tail) => begins_with(text@, prefix@) && tail@ == text@.skip(prefix@.len() as int),
            None => !begins_with(text@, prefix@),
        },
{
    if starts_with(text, prefix) {
        let from = prefix.unicode_len();
        let to = text.unicode_len();
        let tail = text.substring_char(from, to);
        assert(tail@ =~= text@.skip(prefix@.len() as int));
        Some(tail)
    } else {
        None
    }
}

/// The parts of a text between the occurrences of a separator.
pub open spec fn split_on(text: Seq<char>, separator: char) -> Seq<Seq<char>>
    decreases text.len(),
{
    if text.len() == 0 {
        seq![Seq::<char>::empty()]
    } else {
        let before = split_on(text.drop_last(), separator);
        if text.last() == separator {
            before.push(Seq::<char>::empty())
        } else {
            before.drop_last().push(before.last().push(text.last()))
        }
    }
}

/// The texts that a list of strings holds.
pub open spec fn texts(list: Seq<String>) -> Seq<Seq<char>> {
    list.map_values(|item: String| item@)
}

/// The text that an optional string holds.
pub open spec fn opt_text(item: Option<String>) -> Option<Seq<char>> {
    match item {
        Some(value) => Some(value@),
        None => None,
    }
}

/// The text that an optional borrowed text holds.
pub open spec fn opt_str(item: Option<&str>) -> Option<Seq<char>> {
    match item {
        Some(value) => Some(value@),
        None => None,
    }
}

/// A copy of an optional string.
pub fn copy_opt(item: &Option<String>) -> (copy: Option<String>)
    ensures
        opt_text(copy) == opt_text(*item),
{
    match item {
        Some(value) => Some(value.clone()),
        None => None,
    }
}

/// A copy of a list of strings.
pub fn copy_texts(list: &Vec<String>) -> (copy: Vec<String>)
    ensures
        texts(copy@) == texts(list@),
        copy@.len() == list@.len(),
{
    let mut copy: Vec<String> = Vec::new();
    let mut i: usize = 0;
    while i < list.len()
        invariant
            i <= list.len(),
            copy@.len() == i,
            forall|j: int| 0 <= j < i ==> copy@[j]@ == list@[j]@,
        decreases list.len() - i,
    {
        copy.push(list[i].clone());
        i = i + 1;
    }
    assert(texts(copy@) =~= texts(list@));
    copy
}

/// Two optional strings hold the same.
pub fn same_opt(left: &Option<String>, right: &Option<String>) -> (answer: bool)
    ensures
        answer == (opt_text(*left) == opt_text(*right)),
{
    match (left, right) {
        (Some(a), Some(b)) => same(a, b),
        (None, None) => true,
        _ => false,
    }
}

/// The position of the first item of a list with a text, where there is one.
pub fn position_of(list: &Vec<String>, wanted: &str) -> (at: Option<usize>)
    ensures
        match at {
            Some(i) => i < list.len() && list@[i as int]@ == wanted@ && forall|j: int|
                0 <= j < i ==> list@[j]@ != wanted@,
            None => forall|j: int| 0 <= j < list.len() ==> list@[j]@ != wanted@,
        },
{
    let mut i: usize = 0;
    while i < list.len()
        invariant
            i <= list.len(),
            forall|j: int| 0 <= j < i ==> list@[j]@ != wanted@,
        decreases list.len() - i,
    {
        if same(&list[i], wanted) {
            return Some(i);
        }
        i = i + 1;
    }
    None
}

/// A text is among those of a list.
pub fn listed(list: &Vec<String>, wanted: &str) -> (answer: bool)
    ensures
        answer == texts(list@).contains(wanted@),
{
    match position_of(list, wanted) {
        Some(i) => {
            assert(texts(list@)[i as int] == wanted@);
            true
        },
        None => {
            assert(forall|j: int| 0 <= j < list.len() ==> texts(list@)[j] == list@[j]@);
            false
        },
    }
}

/// Split a text at each occurrence of a separator.
pub fn split(text: &str, separator: char) -> (parts: Vec<String>)
    ensures
        texts(parts@) == split_on(text@, separator),
        parts.len() > 0,
{
    let chars = chars_of(text);
    let mut closed: Vec<String> = Vec::new();
    let mut current = String::new();
    let mut i: usize = 0;
    assert(texts(closed@).push(current@) =~= split_on(text@.take(0), separator));
    while i < chars.len()
        invariant
            chars@ == text@,
            i <= chars.len(),
            texts(closed@).push(current@) == split_on(text@.take(i as int), separator),
        decreases chars.len() - i,
    {
        let c = chars[i];
        let ghost before = texts(closed@).push(current@);
        assert(text@.take(i + 1).drop_last() =~= text@.take(i as int));
        assert(text@.take(i + 1).last() == c);
        if c == separator {
            let ghost old_closed = closed@;
            let part = current;
            closed.push(part);
            current = String::new();
            assert(texts(closed@) =~= texts(old_closed).push(part@));
            assert(texts(closed@).push(current@) =~= before.push(Seq::<char>::empty()));
        } else {
            assert(before.drop_last() =~= texts(closed@));
            assert(before.last() == current@);
            current.push(c);
        }
        i = i + 1;
    }
    let ghost before = texts(closed@);
    let last = current;
    closed.push(last);
    assert(text@.take(i as int) =~= text@);
    assert(texts(closed@) =~= before.push(last@));
    closed
}

/// Order of texts: by the first differing character, a proper prefix first.
pub open spec fn text_less(left: Seq<char>, right: Seq<char>) -> bool
    decreases left.len(),
{
    if right.len() == 0 {
        false
    } else if left.len() == 0 {
        true
    } else if left[0] != right[0] {
        left[0] < right[0]
    } else {
        text_less(left.drop_first(), right.drop_first())
    }
}

/// No text comes before itself.
pub proof fn text_less_irreflexive(text: Seq<char>)
    ensures
        !text_less(text, text),
    decreases text.len(),
{
    if text.len() > 0 {
        text_less_irreflexive(text.drop_first());
    }
}

/// The order of texts is transitive.
pub proof fn text_less_transitive(a: Seq<char>, b: Seq<char>, c: Seq<char>)
    requires
        text_less(a, b),
        text_less(b, c),
    ensures
        text_less(a, c),
    decreases a.len(),
{
    if a.len() > 0 && b.len() > 0 && c.len() > 0 && a[0] == b[0] && b[0] == c[0] {
        text_less_transitive(a.drop_first(), b.drop_first(), c.drop_first());
    }
}

/// Of two different texts one comes before the other.
pub proof fn text_less_total(a: Seq<char>, b: Seq<char>)
    ensures
        a == b || text_less(a, b) || text_less(b, a),
    decreases a.len(),
{
    if a.len() > 0 && b.len() > 0 && a[0] == b[0] {
        text_less_total(a.drop_first(), b.drop_first());
        if a.drop_first() == b.drop_first() {
            assert(a =~= seq![a[0]] + a.drop_first());
            assert(b =~= seq![b[0]] + b.drop_first());
        }
    } else if a.len() == 0 && b.len() == 0 {
        assert(a =~= b);
    }
}

/// Tell whether one text comes before another.
pub fn less(left: &str, right: &str) -> (answer: bool)
    ensures
        answer == text_less(left@, right@),
{
    let a = chars_of(left);
    let b = chars_of(right);
    let mut i: usize = 0;
    assert(left@.skip(0) =~= left@);
    assert(right@.skip(0) =~= right@);
    while i < a.len() && i < b.len()
        invariant
            a@ == left@,
            b@ == right@,
            i <= a.len(),
            i <= b.len(),
            text_less(left@, right@) == text_less(left@.skip(i as int), right@.skip(i as int)),
        decreases a.len() - i,
    {
        if a[i] != b[i] {
            return a[i] < b[i];
        }
        assert(left@.skip(i as int).drop_first() =~= left@.skip(i + 1));
        assert(right@.skip(i as int).drop_first() =~= right@.skip(i + 1));
        i = i + 1;
    }
    i < b.len()
}

/// A decimal digit.
pub open spec fn digit(value: nat) -> char {
    if value == 0 {
        '0'
    } else if value == 1 {
        '1'
    } else if value == 2 {
        '2'
    } else if value == 3 {
        '3'
    } else if value == 4 {
        '4'
    } else if value == 5 {
        '5'
    } else if value == 6 {
        '6'
    } else if value == 7 {
        '7'
    } else if value == 8 {
        '8'
    } else {
        '9'
    }
}

/// A number in decimal, without leading zeros.
pub open spec fn decimal(value: nat) -> Seq<char>
    decreases value,
{
    if value < 10 {
        seq![digit(value)]
    } else {
        decimal(value / 10).push(digit(value % 10))
    }
}

/// A signed number in decimal.
pub open spec fn decimal_int(value: int) -> Seq<char> {
    if value < 0 {
        seq!['-'] + decimal((-value) as nat)
    } else {
        decimal(value as nat)
    }
}

fn digit_char(value: u64) -> (c: char)
    requires
        value < 10,
    ensures
        c == digit(value as nat),
{
    if value == 0 {
        '0'
    } else if value == 1 {
        '1'
    } else if value == 2 {
        '2'
    } else if value == 3 {
        '3'
    } else if value == 4 {
        '4'
    } else if value == 5 {
        '5'
    } else if value == 6 {
        '6'
    } else if value == 7 {
        '7'
    } else if value == 8 {
        '8'
    } else {
        '9'
    }
}

fn push_decimal(text: &mut String, value: u64)
    ensures
        final(text)@ == old(text)@ + decimal(value as nat),
    decreases value,
{
    if value < 10 {
        text.push(digit_char(value));
        assert(text@ =~= old(text)@ + decimal(value as nat));
    } else {
        push_decimal(text, value / 10);
        text.push(digit_char(value % 10));
        assert(text@ =~= old(text)@ + decimal(value as nat));
    }
}

/// A number in decimal.
pub fn decimal_text(value: u64) -> (text: String)
    ensures
        text@ == decimal(value as nat),
{
    let mut text = String::new();
    push_decimal(&mut text, value);
    assert(text@ =~= decimal(value as nat));
    text
}

/// A signed number in decimal.
pub fn decimal_int_text(value: i64) -> (text: String)
    ensures
        text@ == decimal_int(value as int),
{
    if value < 0 {
        let magnitude: u64 = if value == i64::MIN {
            0x8000_0000_0000_0000u64
        } else {
            (-value) as u64
        };
        let mut text = String::new();
        text.push('-');
        push_decimal(&mut text, magnitude);
        assert(text@ =~= decimal_int(value as int));
        text
    } else {
        decimal_text(value as u64)
    }
}

/// A text extended with a fill character at its end to a width.
pub open spec fn padded(text: Seq<char>, width: nat) -> Seq<char> {
    if text.len() >= width {
        text
    } else {
        text + Seq::new((width - text.len()) as nat, |i: int| ' ')
    }
}

/// Extend a text with spaces to a width in characters.
pub fn pad(text: &str, width: usize) -> (wide: String)
    ensures
        wide@ == padded(text@, width as nat),
{
    let mut wide = text.to_owned();
    let mut length: usize = text.unicode_len();
    while length < width
        invariant
            length == wide@.len(),
            text@.len() <= wide@.len(),
            wide@.len() <= width || wide@ == text@,
            wide@ =~= text@ + Seq::new((wide@.len() - text@.len()) as nat, |i: int| ' '),
        decreases width - length,
    {
        wide.push(' ');
        length = length + 1;
    }
    assert(wide@ =~= padded(text@, width as nat));
    wide
}

/// A number in decimal with leading zeros up to a width.
pub open spec fn zero_padded(value: nat, width: nat) -> Seq<char> {
    let plain = decimal(value);
    if plain.len() >= width {
        plain
    } else {
        Seq::new((width - plain.len()) as nat, |i: int| '0') + plain
    }
}

/// A number in decimal with leading zeros up to a width.
pub fn zero_pad(value: u64, width: usize) -> (text: String)
    ensures
        text@ == zero_padded(value as nat, width as nat),
{
    let plain = decimal_text(value);
    let length: usize = plain.as_str().unicode_len();
    let mut text = String::new();
    let mut zeros: usize = 0;
    while length < width && zeros < width - length
        invariant
            length == plain@.len(),
            text@ =~= Seq::new(zeros as nat, |i: int| '0'),
            zeros <= width,
            length < width ==> zeros <= width - length,
            length >= width ==> zeros == 0,
        decreases width - zeros,
    {
        text.push('0');
        zeros = zeros + 1;
    }
    text.append(plain.as_str());
    assert(text@ =~= zero_padded(value as nat, width as nat));
    text
}

/// Parts in order with a separator between them.
pub open spec fn joined(parts: Seq<Seq<char>>, separator: Seq<char>) -> Seq<char>
    decreases parts.len(),
{
    if parts.len() == 0 {
        Seq::<char>::empty()
    } else if parts.len() == 1 {
        parts[0]
    } else {
        joined(parts.drop_last(), separator) + separator + parts.last()
    }
}

/// Join the parts of a list with a separator between them.
pub fn join(parts: &Vec<String>, separator: &str) -> (text: String)
    ensures
        text@ == joined(texts(parts@), separator@),
{
    let mut text = String::new();
    let mut i: usize = 0;
    while i < parts.len()
        invariant
            i <= parts.len(),
            text@ == joined(texts(parts@).take(i as int), separator@),
        decreases parts.len() - i,
    {
        let ghost prefix = texts(parts@).take(i + 1);
        assert(prefix.drop_last() =~= texts(parts@).take(i as int));
        assert(prefix.last() == parts@[i as int]@);
        if i > 0 {
            text.append(separator);
        }
        text.append(parts[i].as_str());
        if i == 0 {
            assert(text@ =~= prefix[0]);
        }
        i = i + 1;
    }
    assert(texts(parts@).take(i as int) =~= texts(parts@));
    text
}

/// The value of a decimal digit.
pub open spec fn digit_value(c: char) -> Option<nat> {
    if '0' <= c && c <= '9' {
        Some((c as int - '0' as int) as nat)
    } else {
        None
    }
}

/// The number that a text of one or more decimal digits stands for.
pub open spec fn digits_value(text: Seq<char>) -> Option<nat>
    decreases text.len(),
{
    if text.len() == 0 {
        None
    } else if text.len() == 1 {
        digit_value(text[0])
    } else {
        match (digits_value(text.drop_last()), digit_value(text.last())) {
            (Some(high), Some(low)) => Some(high * 10 + low),
            _ => None,
        }
    }
}

/// The signed number that a text stands for: decimal digits behind an
/// optional sign.
pub open spec fn signed_value(text: Seq<char>) -> Option<int> {
    if text.len() > 0 && text[0] == '-' {
        match digits_value(text.skip(1)) {
            Some(value) => Some(-(value as int)),
            None => None,
        }
    } else {
        unsigned_value(text)
    }
}

/// The number that a text stands for: decimal digits behind an optional plus
/// sign.
pub open spec fn unsigned_value(text: Seq<char>) -> Option<int> {
    let digits = if text.len() > 0 && text[0] == '+' {
        text.skip(1)
    } else {
        text
    };
    match digits_value(digits) {
        Some(value) => Some(value as int),
        None => None,
    }
}

proof fn lemma_digits_grow(text: Seq<char>, at: int)
    requires
        1 <= at <= text.len(),
    ensures
        digits_value(text.take(at)) is None ==> digits_value(text) is None,
        digits_value(text) is Some ==> digits_value(text)->0 >= digits_value(text.take(at))->0,
    decreases text.len() - at,
{
    if at == text.len() {
        assert(text.take(at) =~= text);
    } else {
        let more = text.take(at + 1);
        assert(more.drop_last() =~= text.take(at));
        lemma_digits_grow(text, at + 1);
        if digits_value(more) is Some {
            let high = digits_value(text.take(at))->0;
            assert(digits_value(more)->0 >= high * 10);
        }
    }
}

fn read_digits(text: &Vec<char>, from: usize) -> (value: Option<u64>)
    requires
        from <= text.len(),
    ensures
        match value {
            Some(number) => digits_value(text@.skip(from as int)) == Some(number as nat),
            None => digits_value(text@.skip(from as int)) is None || digits_value(
                text@.skip(from as int),
            )->0 > u64::MAX,
        },
{
    let ghost digits = text@.skip(from as int);
    if from == text.len() {
        return None;
    }
    let mut value: u64 = 0;
    let mut i: usize = from;
    while i < text.len()
        invariant
            from <= i <= text.len(),
            from < text.len(),
            digits == text@.skip(from as int),
            i == from ==> value == 0,
            i > from ==> digits_value(digits.take(i - from)) == Some(value as nat),
        decreases text.len() - i,
    {
        let c = text[i];
        let ghost now = digits.take(i - from + 1);
        assert(now.last() == c);
        assert(now.drop_last() =~= digits.take(i - from));
        if c < '0' || c > '9' {
            proof {
                lemma_digits_grow(digits, i - from + 1);
            }
            return None;
        }
        let low: u64 = (c as u32 - '0' as u32) as u64;
        if value > (u64::MAX - low) / 10 {
            proof {
                lemma_digits_grow(digits, i - from + 1);
                if i == from {
                    assert(now[0] == c);
                } else {
                    assert(digits_value(now) == Some((value * 10 + low) as nat));
                }
            }
            return None;
        }
        value = value * 10 + low;
        i = i + 1;
        assert(digits_value(digits.take(i - from)) == Some(value as nat)) by {
            assert(now =~= digits.take(i - from));
            if now.len() == 1 {
                assert(now[0] == c);
            }
        }
    }
    assert(digits.take(i - from) =~= digits);
    Some(value)
}

/// The signed number of 64 bits that a text stands for.
pub fn parse_i64(text: &str) -> (value: Option<i64>)
    ensures
        match value {
            Some(number) => signed_value(text@) == Some(number as int),
            None => signed_value(text@) is None || signed_value(text@)->0 < i64::MIN
                || signed_value(text@)->0 > i64::MAX,
        },
{
    let chars = chars_of(text);
    if chars.len() > 0 && chars[0] == '-' {
        match read_digits(&chars, 1) {
            None => None,
            Some(number) => if number <= 0x7fff_ffff_ffff_ffff {
                Some(-(number as i64))
            } else if number == 0x8000_0000_0000_0000 {
                Some(i64::MIN)
            } else {
                None
            },
        }
    } else {
        let from: usize = if chars.len() > 0 && chars[0] == '+' {
            1
        } else {
            0
        };
        assert(text@.skip(0) =~= text@);
        match read_digits(&chars, from) {
            None => None,
            Some(number) => if number <= 0x7fff_ffff_ffff_ffff {
                Some(number as i64)
            } else {
                None
            },
        }
    }
}

/// The number of 64 bits that a text stands for.
pub fn parse_u64(text: &str) -> (value: Option<u64>)
    ensures
        match value {
            Some(number) => unsigned_value(text@) == Some(number as int),
            None => unsigned_value(text@) is None || unsigned_value(text@)->0 > u64::MAX,
        },
{
    let chars = chars_of(text);
    let from: usize = if chars.len() > 0 && chars[0] == '+' {
        1
    } else {
        0
    };
    assert(text@.skip(0) =~= text@);
    read_digits(&chars, from)
}

/// The number of 32 bits that a text stands for.
pub fn parse_u32(text: &str) -> (value: Option<u32>)
    ensures
        match value {
            Some(number) => unsigned_value(text@) == Some(number as int),
            None => unsigned_value(text@) is None || unsigned_value(text@)->0 > u32::MAX,
        },
{
    match parse_u64(text) {
        Some(number) => if number <= 0xffff_ffff {
            Some(number as u32)
        } else {
            None
        },
        None => None,
    }
}

/// A number reads back from its decimal text.
pub proof fn lemma_decimal_reads_back(value: nat)
    ensures
        decimal(value).len() > 0,
        digits_value(decimal(value)) == Some(value),
        '0' <= decimal(value)[0] && decimal(value)[0] <= '9',
    decreases value,
{
    if value >= 10 {
        lemma_decimal_reads_back(value / 10);
        let front = decimal(value / 10);
        let text = decimal(value);
        assert(text.drop_last() =~= front);
        assert(text[0] == front[0]);
        assert(value == value / 10 * 10 + value % 10);
    }
}

/// A signed number reads back from its decimal text.
pub proof fn lemma_decimal_int_reads_back(value: int)
    ensures
        signed_value(decimal_int(value)) == Some(value),
{
    if value < 0 {
        lemma_decimal_reads_back((-value) as nat);
        assert(decimal_int(value).skip(1) =~= decimal((-value) as nat));
    } else {
        lemma_decimal_reads_back(value as nat);
    }
}

/// The position of the first occurrence of a part from a position on.
pub open spec fn found_from(text: Seq<char>, part: Seq<char>, from: int) -> Option<int>
    decreases text.len() + 1 - from,
{
    if from < 0 || from > text.len() {
        None
    } else if stands_at(text, part, from) {
        Some(from)
    } else {
        found_from(text, part, from + 1)
    }
}

/// The texts before and behind the first occurrence of a separator.
pub fn split_once(text: &str, separator: &str) -> (parts: Option<(String, String)>)
    ensures
        match (parts, found_from(text@, separator@, 0)) {
            (Some((before, behind)), Some(at)) => before@ == text@.take(at) && behind@
                == text@.skip(at + separator@.len()),
            (None, None) => true,
            _ => false,
        },
{
    let chars = chars_of(text);
    let wanted = chars_of(separator);
    let mut at: usize = 0;
    while at <= chars.len()
        invariant
            at <= chars.len() + 1,
            chars@ == text@,
            wanted@ == separator@,
            found_from(text@, separator@, 0) == found_from(text@, separator@, at as int),
        decreases chars.len() + 1 - at,
    {
        if wanted.len() <= chars.len() - at && matches_at(&chars, &wanted, at) {
            let before = part_of(&chars, 0, at);
            let behind = part_of(&chars, at + wanted.len(), chars.len());
            assert(before@ =~= text@.take(at as int));
            assert(behind@ =~= text@.skip(at + separator@.len()));
            return Some((before, behind));
        }
        if at == chars.len() {
            assert(found_from(text@, separator@, at + 1) is None);
            return None;
        }
        at = at + 1;
    }
    None
}

fn part_of(chars: &Vec<char>, from: usize, to: usize) -> (text: String)
    requires
        from <= to <= chars.len(),
    ensures
        text@ == chars@.subrange(from as int, to as int),
{
    let mut text = String::new();
    let mut i: usize = from;
    assert(text@ =~= chars@.subrange(from as int, i as int));
    while i < to
        invariant
            from <= i <= to <= chars.len(),
            text@ == chars@.subrange(from as int, i as int),
        decreases to - i,
    {
        text.push(chars[i]);
        i = i + 1;
        assert(text@ =~= chars@.subrange(from as int, i as int));
    }
    text
}

/// The quoted texts of a list.
pub open spec fn quoted_each(list: Seq<Seq<char>>) -> Seq<Seq<char>> {
    list.map_values(|text: Seq<char>| quoted(text))
}

/// A list of texts as it is shown for diagnosis.
pub open spec fn quoted_list(list: Seq<Seq<char>>) -> Seq<char> {
    "["@ + joined(quoted_each(list), ", "@) + "]"@
}

/// A list of texts as it is shown for diagnosis.
pub fn quote_list(list: &Vec<String>) -> (text: String)
    ensures
        text@ == quoted_list(texts(list@)),
{
    let mut parts: Vec<String> = Vec::new();
    let mut i: usize = 0;
    while i < list.len()
        invariant
            i <= list.len(),
            parts@.len() == i,
            forall|k: int| 0 <= k < i ==> (#[trigger] parts@[k])@ == quoted(list@[k]@),
        decreases list.len() - i,
    {
        parts.push(quote(list[i].as_str()));
        i = i + 1;
    }
    assert(texts(parts@) =~= quoted_each(texts(list@)));
    let mut text = "[".to_owned();
    text.append(join(&parts, ", ").as_str());
    text.append("]");
    text
}

proof fn lemma_first_difference(left: Seq<char>, right: Seq<char>, at: int)
    requires
        0 <= at <= left.len(),
        at <= right.len(),
        forall|i: int| 0 <= i < at ==> left[i] == right[i],
        at < left.len() && at < right.len() ==> left[at] != right[at],
    ensures
        text_less(left, right) == (at < right.len() && (at == left.len() || left[at] < right[at])),
    decreases left.len(),
{
    if at > 0 {
        let l = left.drop_first();
        let r = right.drop_first();
        assert forall|i: int| 0 <= i < at - 1 implies l[i] == r[i] by {
            assert(left[i + 1] == right[i + 1]);
        }
        assert(left[0] == right[0]);
        lemma_first_difference(l, r, at - 1);
    }
}

/// Texts are ordered by the first character in which they differ, and a text
/// that the other continues comes first.
pub proof fn first_difference_orders(left: &str, right: &str, at: int, answer: bool)
    requires
        call_ensures(less, (left, right), answer),
        0 <= at <= left@.len(),
        at <= right@.len(),
        forall|i: int| 0 <= i < at ==> left@[i] == right@[i],
    ensures
        at < left@.len() && at < right@.len() && left@[at] < right@[at] ==> answer,
        at < left@.len() && at < right@.len() && left@[at] > right@[at] ==> !answer,
        at == left@.len() && at < right@.len() ==> answer,
        at == right@.len() ==> !answer,
{
    if at == left@.len() || at == right@.len() || left@[at] != right@[at] {
        lemma_first_difference(left@, right@, at);
    }
}

/// Of two texts one comes first unless they are the same, and what comes
/// before a text comes before all that are behind it.
pub proof fn texts_are_totally_ordered(
    a: &str,
    b: &str,
    c: &str,
    a_b: bool,
    b_a: bool,
    b_c: bool,
    a_c: bool,
)
    requires
        call_ensures(less, (a, b), a_b),
        call_ensures(less, (b, a), b_a),
        call_ensures(less, (b, c), b_c),
        call_ensures(less, (a, c), a_c),
    ensures
        !(a_b && b_a),
        !a_b && !b_a <==> a@ == b@,
        a_b && b_c ==> a_c,
{
    text_less_total(a@, b@);
    text_less_irreflexive(a@);
    if a_b && b_a {
        text_less_transitive(a@, b@, a@);
    }
    if a_b && b_c {
        text_less_transitive(a@, b@, c@);
    }
}

proof fn lemma_split_joins(text: Seq<char>, separator: char)
    ensures
        split_on(text, separator).len() > 0,
        joined(split_on(text, separator), seq![separator]) == text,
        forall|i: int|
            0 <= i < split_on(text, separator).len() ==> !(#[trigger] split_on(
                text,
                separator,
            )[i]).contains(separator),
    decreases text.len(),
{
    let parts = split_on(text, separator);
    if text.len() > 0 {
        let front = text.drop_last();
        let before = split_on(front, separator);
        lemma_split_joins(front, separator);
        assert(text =~= front.push(text.last()));
        if text.last() == separator {
            assert(parts.drop_last() =~= before);
            assert(parts.last() == Seq::<char>::empty());
            assert(joined(parts, seq![separator]) =~= joined(before, seq![separator]) + seq![
                separator,
            ] + Seq::<char>::empty());
            assert(joined(parts, seq![separator]) =~= text);
            assert forall|i: int| 0 <= i < parts.len() implies !(#[trigger] parts[i]).contains(
                separator,
            ) by {
                if i < before.len() {
                    assert(parts[i] == before[i]);
                }
            }
        } else {
            assert(parts.drop_last() =~= before.drop_last());
            assert(parts.last() == before.last().push(text.last()));
            if before.len() == 1 {
                assert(joined(parts, seq![separator]) == parts[0]);
                assert(joined(before, seq![separator]) == before[0]);
            } else {
                let head = joined(before.drop_last(), seq![separator]);
                assert(joined(before, seq![separator]) == head + seq![separator] + before.last());
                assert(joined(parts, seq![separator]) == head + seq![separator] + parts.last());
            }
            assert(joined(parts, seq![separator]) =~= text);
            assert forall|i: int| 0 <= i < parts.len() implies !(#[trigger] parts[i]).contains(
                separator,
            ) by {
                if i < parts.len() - 1 {
                    assert(parts[i] == before[i]);
                } else {
                    let last = before[before.len() - 1];
                    let grown = last.push(text.last());
                    assert(parts[i] == grown);
                    if grown.contains(separator) {
                        let k = choose|k: int| 0 <= k < grown.len() && grown[k] == separator;
                        assert(k < last.len());
                        assert(last[k] == separator);
                        assert(last.contains(separator));
                    }
                }
            }
        }
    }
}

/// The parts of a text hold no separator, and joined with the separator they
/// are the text again.
pub proof fn split_texts_join_again(
    text: &str,
    separator: char,
    between: &str,
    parts: Vec<String>,
    whole: String,
)
    requires
        call_ensures(split, (text, separator), parts),
        between@ == seq![separator],
        call_ensures(join, (&parts, between), whole),
    ensures
        whole@ == text@,
        parts@.len() > 0,
        forall|i: int| 0 <= i < parts@.len() ==> !(#[trigger] parts@[i])@.contains(separator),
{
    lemma_split_joins(text@, separator);
    assert forall|i: int| 0 <= i < parts@.len() implies !(#[trigger] parts@[i])@.contains(
        separator,
    ) by {
        assert(texts(parts@)[i] == parts@[i]@);
    }
}

/// A join of nothing is empty, a join of one part is that part, and a further
/// part stands at the end behind the separator.
pub proof fn joins_grow_at_their_end(
    parts: &Vec<String>,
    more: &Vec<String>,
    separator: &str,
    short: String,
    long: String,
)
    requires
        call_ensures(join, (parts, separator), short),
        call_ensures(join, (more, separator), long),
        more@.len() == parts@.len() + 1,
        forall|i: int| 0 <= i < parts@.len() ==> (#[trigger] more@[i])@ == parts@[i]@,
    ensures
        parts@.len() == 0 ==> short@.len() == 0 && long@ == more@[0]@,
        parts@.len() > 0 ==> long@ == short@ + separator@ + more@.last()@,
{
    assert(texts(more@).drop_last() =~= texts(parts@));
    assert(texts(more@).last() == more@.last()@);
}

/// A number reads back from its decimal text, signed or not.
pub proof fn numbers_read_back(
    value: u64,
    signed: i64,
    shown: String,
    signed_shown: String,
    text: &str,
    signed_text: &str,
    read: Option<u64>,
    small: Option<u32>,
    signed_read: Option<i64>,
)
    requires
        call_ensures(decimal_text, (value,), shown),
        call_ensures(decimal_int_text, (signed,), signed_shown),
        text@ == shown@,
        signed_text@ == signed_shown@,
        call_ensures(parse_u64, (text,), read),
        call_ensures(parse_u32, (text,), small),
        call_ensures(parse_i64, (signed_text,), signed_read),
    ensures
        read == Some(value),
        value <= u32::MAX ==> small is Some && small->0 == value,
        value > u32::MAX ==> small is None,
        signed_read == Some(signed),
{
    lemma_decimal_reads_back(value as nat);
    lemma_decimal_int_reads_back(signed as int);
}

/// Decimal texts hold digits alone and have no leading zero.
pub proof fn decimal_texts_are_plain(value: u64, text: String)
    requires
        call_ensures(decimal_text, (value,), text),
    ensures
        text@.len() > 0,
        forall|i: int| 0 <= i < text@.len() ==> '0' <= #[trigger] text@[i] <= '9',
        text@[0] == '0' ==> value == 0,
{
    lemma_decimal_shape(value as nat);
}

proof fn lemma_decimal_shape(value: nat)
    ensures
        decimal(value).len() > 0,
        forall|i: int|
            0 <= i < decimal(value).len() ==> '0' <= #[trigger] decimal(value)[i] <= '9',
        decimal(value)[0] == '0' ==> value == 0,
    decreases value,
{
    if value >= 10 {
        lemma_decimal_shape(value / 10);
        assert(decimal(value)[0] == decimal(value / 10)[0]);
    }
}

/// A digit behind a text of digits makes ten times its number and the digit. A
/// single digit is its value, a plus sign before digits changes nothing, and a
/// minus sign turns the number.
pub proof fn digits_are_places(
    short: &str,
    long: &str,
    digit: char,
    plus: &str,
    minus: &str,
    number: Option<u64>,
    longer: Option<u64>,
    with_plus: Option<u64>,
    with_minus: Option<i64>,
)
    requires
        '0' <= digit <= '9',
        long@ == short@.push(digit),
        plus@ == seq!['+'] + short@,
        minus@ == seq!['-'] + short@,
        short@.len() > 0 ==> '0' <= short@[0] <= '9',
        call_ensures(parse_u64, (short,), number),
        call_ensures(parse_u64, (long,), longer),
        call_ensures(parse_u64, (plus,), with_plus),
        call_ensures(parse_i64, (minus,), with_minus),
    ensures
        short@.len() == 0 ==> longer is Some && longer->0 == digit as int - '0' as int,
        number is Some && longer is Some ==> longer->0 == number->0 * 10 + (digit as int
            - '0' as int),
        number is Some && number->0 * 10 + 9 <= u64::MAX ==> longer is Some,
        with_plus == number,
        number is Some && number->0 <= i64::MAX ==> with_minus is Some && with_minus->0
            == -number->0,
{
    let s = short@;
    let l = long@;
    assert(l.drop_last() =~= s);
    assert(l.last() == digit);
    assert(plus@.skip(1) =~= s);
    assert(minus@.skip(1) =~= s);
    assert(l[0] == if s.len() > 0 { s[0] } else { digit });
    if s.len() == 0 {
        assert(l.len() == 1 && l[0] == digit);
        assert(digits_value(l) == digit_value(digit));
    } else {
        assert(digits_value(s) is Some ==> digits_value(l) is Some);
    }
}

/// A text with a character that is no digit behind digits is no number.
pub proof fn letters_are_no_numbers(text: &str, value: Option<u64>)
    requires
        call_ensures(parse_u64, (text,), value),
        text@.len() == 0 || !('0' <= text@.last() <= '9'),
    ensures
        value is None,
{
    if text@.len() > 0 {
        let t = text@;
        if t[0] == '+' {
            let rest = t.skip(1);
            if rest.len() > 0 {
                assert(rest.last() == t.last());
            }
        }
    }
}

/// A padded text begins with the text, is as wide as asked, or as wide as the
/// text where that is wider, and is filled with spaces.
pub proof fn padding_fills_with_spaces(text: &str, width: usize, wide: String)
    requires
        call_ensures(pad, (text, width), wide),
    ensures
        wide@.len() == if text@.len() >= width { text@.len() as int } else { width as int },
        wide@.take(text@.len() as int) == text@,
        forall|i: int| text@.len() <= i < wide@.len() ==> #[trigger] wide@[i] == ' ',
{
    assert(wide@.take(text@.len() as int) =~= text@);
}

/// A number with leading zeros is as wide as asked at least, and reads back.
pub proof fn zeros_do_not_count(value: u64, width: usize, text: String, plain: &str, read: Option<
    u64,
>)
    requires
        call_ensures(zero_pad, (value, width), text),
        plain@ == text@,
        call_ensures(parse_u64, (plain,), read),
    ensures
        text@.len() >= width,
        read == Some(value),
{
    lemma_decimal_reads_back(value as nat);
    let shown = decimal(value as nat);
    if shown.len() < width {
        let zeros = Seq::new((width - shown.len()) as nat, |i: int| '0');
        lemma_zeros_before(zeros, shown, value as nat);
        assert(text@ == zeros + shown);
        assert(text@[0] == '0');
    }
}

proof fn lemma_zeros_before(zeros: Seq<char>, digits: Seq<char>, value: nat)
    requires
        forall|i: int| 0 <= i < zeros.len() ==> zeros[i] == '0',
        digits.len() > 0,
        digits_value(digits) == Some(value),
    ensures
        digits_value(zeros + digits) == Some(value),
    decreases digits.len(),
{
    let all = zeros + digits;
    if digits.len() == 1 {
        lemma_all_zeros(zeros);
        if zeros.len() > 0 {
            assert(all.drop_last() =~= zeros);
            assert(all.last() == digits[0]);
        } else {
            assert(all =~= digits);
        }
    } else {
        let front = digits.drop_last();
        lemma_zeros_before(zeros, front, digits_value(front)->0);
        assert(all.drop_last() =~= zeros + front);
        assert(all.last() == digits.last());
    }
}

proof fn lemma_all_zeros(zeros: Seq<char>)
    requires
        forall|i: int| 0 <= i < zeros.len() ==> zeros[i] == '0',
    ensures
        zeros.len() > 0 ==> digits_value(zeros) == Some(0nat),
    decreases zeros.len(),
{
    if zeros.len() > 1 {
        let front = zeros.drop_last();
        assert forall|i: int| 0 <= i < front.len() implies front[i] == '0' by {
            assert(front[i] == zeros[i]);
        }
        lemma_all_zeros(front);
        assert(zeros.last() == zeros[zeros.len() - 1]);
    }
}

/// A text has a prefix where it is the prefix and a rest, and the rest is what
/// is left without it.
pub proof fn prefixes_are_taken_off(
    text: &str,
    prefix: &str,
    starts: bool,
    rest: Option<&str>,
)
    requires
        call_ensures(starts_with, (text, prefix), starts),
        call_ensures(strip_prefix, (text, prefix), rest),
    ensures
        starts <==> rest is Some,
        rest is Some ==> text@ == prefix@ + rest->0@,
        (exists|tail: Seq<char>| text@ == #[trigger] (prefix@ + tail)) ==> starts,
{
    if rest is Some {
        assert(text@ =~= text@.take(prefix@.len() as int) + text@.skip(prefix@.len() as int));
    }
    if exists|tail: Seq<char>| text@ == #[trigger] (prefix@ + tail) {
        let tail = choose|tail: Seq<char>| text@ == #[trigger] (prefix@ + tail);
        assert(text@.take(prefix@.len() as int) =~= prefix@);
    }
}

/// A part is found in a text exactly where the text is something, the part and
/// something more.
pub proof fn parts_stand_in_texts(
    text: &str,
    part: &str,
    before: Seq<char>,
    behind: Seq<char>,
    answer: bool,
)
    requires
        call_ensures(contains, (text, part), answer),
    ensures
        text@ == before + part@ + behind ==> answer,
        answer ==> exists|at: int|
            0 <= at <= text@.len() - part@.len() && #[trigger] text@.subrange(
                at,
                at + part@.len(),
            ) == part@,
{
    if text@ == before + part@ + behind {
        let at = before.len() as int;
        assert(text@.subrange(at, at + part@.len()) =~= part@);
        assert(stands_at(text@, part@, at));
    }
    if answer {
        let at = choose|at: int| #[trigger] stands_at(text@, part@, at);
        assert(text@.subrange(at, at + part@.len()) == part@);
    }
}

proof fn lemma_found(text: Seq<char>, part: Seq<char>, from: int)
    requires
        0 <= from,
    ensures
        match found_from(text, part, from) {
            Some(at) => from <= at && stands_at(text, part, at) && forall|i: int|
                from <= i < at ==> !#[trigger] stands_at(text, part, i),
            None => forall|i: int| from <= i ==> !#[trigger] stands_at(text, part, i),
        },
    decreases text.len() + 1 - from,
{
    if from <= text.len() && !stands_at(text, part, from) {
        lemma_found(text, part, from + 1);
    }
}

/// A text is split at the first place where the separator stands: both parts
/// with the separator between them are the text, and no place before has it.
/// A text without the separator is not split.
pub proof fn texts_are_split_at_the_first_separator(
    text: &str,
    separator: &str,
    there: bool,
    parts: Option<(String, String)>,
)
    requires
        call_ensures(split_once, (text, separator), parts),
        call_ensures(contains, (text, separator), there),
    ensures
        parts is Some <==> there,
        parts matches Some((before, behind)) ==> {
            &&& text@ == before@ + separator@ + behind@
            &&& forall|i: int|
                0 <= i < before@.len() ==> !#[trigger] stands_at(text@, separator@, i)
        },
{
    lemma_found(text@, separator@, 0);
    match found_from(text@, separator@, 0) {
        Some(at) => {
            assert(stands_at(text@, separator@, at));
            assert(text@ =~= text@.take(at) + text@.subrange(at, at + separator@.len())
                + text@.skip(at + separator@.len()));
        },
        None => {
            assert forall|i: int| !#[trigger] stands_at(text@, separator@, i) by {}
        },
    }
}

/// A text is blank where every character of it is white space.
pub proof fn blank_texts_are_white_space(text: Seq<char>)
    ensures
        blank(text) <==> forall|i: int| 0 <= i < text.len() ==> white_space(#[trigger] text[i]),
{
    lemma_trimmed_ends(text);
    let start = trimmed_start(text);
    lemma_trimmed_tail(start);
    if blank(text) {
        if start.len() > 0 {
            assert(white_space(start[0]));
        }
    }
}

proof fn lemma_trimmed_ends(text: Seq<char>)
    ensures
        trimmed_start(text).len() == 0 <==> forall|i: int|
            0 <= i < text.len() ==> white_space(#[trigger] text[i]),
        trimmed_start(text).len() > 0 ==> !white_space(trimmed_start(text)[0]),
    decreases text.len(),
{
    if text.len() > 0 && white_space(text[0]) {
        let rest = text.drop_first();
        lemma_trimmed_ends(rest);
        if trimmed_start(rest).len() == 0 {
            assert forall|i: int| 0 <= i < text.len() implies white_space(#[trigger] text[i]) by {
                if i > 0 {
                    assert(rest[i - 1] == text[i]);
                }
            }
        } else if forall|i: int| 0 <= i < text.len() ==> white_space(#[trigger] text[i]) {
            assert forall|i: int| 0 <= i < rest.len() implies white_space(#[trigger] rest[i]) by {
                assert(rest[i] == text[i + 1]);
            }
        }
    }
}

proof fn lemma_trimmed_tail(text: Seq<char>)
    ensures
        trimmed_end(text).len() == 0 ==> forall|i: int|
            0 <= i < text.len() ==> white_space(#[trigger] text[i]),
        text.len() > 0 && !white_space(text[0]) ==> trimmed_end(text).len() > 0,
    decreases text.len(),
{
    if text.len() > 0 && white_space(text.last()) {
        let front = text.drop_last();
        lemma_trimmed_tail(front);
        if trimmed_end(front).len() == 0 {
            assert forall|i: int| 0 <= i < text.len() implies white_space(#[trigger] text[i]) by {
                if i < front.len() {
                    assert(front[i] == text[i]);
                }
            }
        }
    }
}

} // verus!
