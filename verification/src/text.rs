//! Text helpers: trimming, splitting, case folding and concatenation, each
//! stated over the sequence of characters that a string holds.

use vstd::prelude::*;

verus! {

/// The code points with the Unicode property `White_Space`.
pub open spec fn is_white_space(c: char) -> bool {
    let u = c as u32;
    ||| 9 <= u <= 13
    ||| u == 0x20
    ||| u == 0x85
    ||| u == 0xa0
    ||| u == 0x1680
    ||| 0x2000 <= u <= 0x200a
    ||| u == 0x2028
    ||| u == 0x2029
    ||| u == 0x202f
    ||| u == 0x205f
    ||| u == 0x3000
}

/// `char::is_whitespace` answers whether the character has the Unicode
/// property `White_Space`; the contract lists the code points that have it.
pub assume_specification[ char::is_whitespace ](c: char) -> (res: bool)
    ensures
        res == is_white_space(c),
;

/// `String::push` appends one character.
pub assume_specification[ String::push ](s: &mut String, c: char)
    ensures
        final(s)@ == old(s)@.push(c),
;

/// Whether all characters of a text are ASCII.
pub open spec fn is_ascii_text(s: Seq<char>) -> bool {
    forall|i: int| 0 <= i < s.len() ==> (#[trigger] s[i] as u32) < 128
}

/// What `str::to_lowercase` returns for a text that is not all ASCII: its
/// Unicode lower-case mapping.
pub uninterp spec fn unicode_lowercase(s: Seq<char>) -> Seq<char>;

/// A text in lower case.
pub open spec fn lowercase(s: Seq<char>) -> Seq<char> {
    if is_ascii_text(s) {
        ascii_lowercase(s)
    } else {
        unicode_lowercase(s)
    }
}

/// ASCII text in lower case is ASCII text, and stays as it is in lower case.
pub proof fn lower_case_is_stable(s: Seq<char>)
    requires
        is_ascii_text(s),
    ensures
        is_ascii_text(lowercase(s)),
        lowercase(lowercase(s)) == lowercase(s),
{
    let lower = lowercase(s);
    assert forall|i: int| 0 <= i < lower.len() implies (#[trigger] lower[i] as u32) < 128
        && ascii_lower_char(lower[i]) == lower[i] by {
        assert((s[i] as u32) < 128);
        assert(lower[i] == ascii_lower_char(s[i]));
    }
    assert(ascii_lowercase(lower) =~= lower);
}

/// `str::to_lowercase` maps a text to lower case by the Unicode tables, which
/// map `A` to `Z` to `a` to `z` and leave the rest of ASCII as it is. Beyond
/// ASCII the mapping is named, not spelled out: it depends on the text alone.
#[verifier::external_body]
pub(crate) fn to_lowercase(s: &str) -> (res: String)
    ensures
        is_ascii_text(s@) ==> res@ == ascii_lowercase(s@),
        !is_ascii_text(s@) ==> res@ == unicode_lowercase(s@),
{
    s.to_lowercase()
}

/// What `format!("{:?}")` writes for a text: the text between double quotes,
/// with escapes.
pub uninterp spec fn debug_text(s: Seq<char>) -> Seq<char>;

/// The `Debug` form of a `str`, as `format!("{:?}")` writes it. The escapes
/// are named, not spelled out: they depend on the text alone.
#[verifier::external_body]
pub(crate) fn to_debug(s: &str) -> (res: String)
    ensures
        res@ == debug_text(s@),
{
    format!("{:?}", s)
}

/// Whether a character is an ASCII decimal digit.
pub open spec fn is_digit(c: char) -> bool {
    '0' <= c && c <= '9'
}

/// The number that a sequence of decimal digits stands for.
pub open spec fn digits_value(s: Seq<char>) -> nat
    decreases s.len(),
{
    if s.len() == 0 {
        0
    } else {
        10 * digits_value(s.drop_last()) + (s.last() as nat - '0' as nat) as nat
    }
}

/// A decimal digit.
pub open spec fn digit(d: nat) -> char {
    (48 + d) as u32 as char
}

/// A number in decimal digits.
pub open spec fn decimal(n: nat) -> Seq<char>
    decreases n,
{
    if n < 10 {
        seq![digit(n)]
    } else {
        decimal(n / 10).push(digit(n % 10))
    }
}

/// Write a number in decimal digits.
pub(crate) fn to_decimal(n: u64) -> (res: String)
    ensures
        res@ == decimal(n as nat),
    decreases n,
{
    let d: char = match n % 10 {
        0 => '0',
        1 => '1',
        2 => '2',
        3 => '3',
        4 => '4',
        5 => '5',
        6 => '6',
        7 => '7',
        8 => '8',
        _ => '9',
    };
    assert(d == digit((n % 10) as nat));
    let mut out = if n < 10 {
        String::new()
    } else {
        to_decimal(n / 10)
    };
    out.push(d);
    assert(n < 10 ==> out@ =~= seq![d]);
    out
}

proof fn lemma_decimal(n: nat)
    ensures
        decimal(n).len() > 0,
        forall|i: int| 0 <= i < decimal(n).len() ==> is_digit(#[trigger] decimal(n)[i]),
        digits_value(decimal(n)) == n,
    decreases n,
{
    let s = decimal(n);
    if n < 10 {
        assert(s.drop_last() =~= Seq::empty());
        assert(digits_value(s.drop_last()) == 0);
        assert(s.last() as nat - '0' as nat == n);
    } else {
        lemma_decimal(n / 10);
        let rest = decimal(n / 10);
        assert(s.drop_last() =~= rest);
        assert(s.last() as nat - '0' as nat == n % 10);
        assert forall|i: int| 0 <= i < s.len() implies is_digit(#[trigger] s[i]) by {
            if i < rest.len() {
                assert(s[i] == rest[i]);
            }
        }
    }
}

/// Reading a number in decimal digits gives it back.
pub proof fn decimal_is_read_back(n: nat)
    ensures
        unsigned_value(decimal(n)) == Some(n),
{
    lemma_decimal(n);
    assert(is_digit(decimal(n)[0]));
}

/// A text without one leading plus sign.
pub open spec fn without_plus(s: Seq<char>) -> Seq<char> {
    if s.len() > 0 && s[0] == '+' {
        s.skip(1)
    } else {
        s
    }
}

/// The unsigned number that a text spells: an optional plus sign and then
/// decimal digits only, at least one.
pub open spec fn unsigned_value(s: Seq<char>) -> Option<nat> {
    let digits = without_plus(s);
    if digits.len() > 0 && (forall|i: int| 0 <= i < digits.len() ==> is_digit(#[trigger] digits[i])) {
        Some(digits_value(digits))
    } else {
        None
    }
}

/// Whether a text spells an unsigned number that is at most `max`.
pub open spec fn spells_up_to(s: Seq<char>, max: nat) -> bool {
    match unsigned_value(s) {
        Some(value) => value <= max,
        None => false,
    }
}

/// What the `ParseIntError` of `str::parse::<u64>` says of a text.
pub uninterp spec fn u64_parse_error(s: Seq<char>) -> Seq<char>;

/// `str::parse::<u64>`: an optional plus sign and decimal digits whose value
/// fits. The wording of the error is named, not spelled out.
#[verifier::external_body]
pub(crate) fn parse_u64(s: &str) -> (res: Result<u64, String>)
    ensures
        res is Ok <==> spells_up_to(s@, u64::MAX as nat),
        res matches Ok(value) ==> unsigned_value(s@) == Some(value as nat),
        res matches Err(text) ==> text@ == u64_parse_error(s@),
{
    s.parse::<u64>().map_err(|e| e.to_string())
}

/// What the `ParseIntError` of `str::parse::<u32>` says of a text.
pub uninterp spec fn u32_parse_error(s: Seq<char>) -> Seq<char>;

/// `str::parse::<u32>`: an optional plus sign and decimal digits whose value
/// fits. The wording of the error is named, not spelled out.
#[verifier::external_body]
pub(crate) fn parse_u32(s: &str) -> (res: Result<u32, String>)
    ensures
        res is Ok <==> spells_up_to(s@, u32::MAX as nat),
        res matches Ok(value) ==> unsigned_value(s@) == Some(value as nat),
        res matches Err(text) ==> text@ == u32_parse_error(s@),
{
    s.parse::<u32>().map_err(|e| e.to_string())
}

/// The characters of a text.
pub(crate) fn chars_of(s: &str) -> (res: Vec<char>)
    ensures
        res@ == s@,
{
    let mut out: Vec<char> = Vec::new();
    for c in it: s.chars()
        invariant
            out@ == it.seq().take(it.index()),
            it.seq() == s@,
    {
        out.push(c);
        assert(it.seq().take(it.index() + 1) =~= it.seq().take(it.index()).push(c));
    }
    assert(s@.take(s@.len() as int) =~= s@);
    out
}

/// Two texts are the same when their characters are.
pub(crate) fn equal(a: &str, b: &str) -> (res: bool)
    ensures
        res == (a@ == b@),
{
    a.to_owned() == b.to_owned()
}

/// A text without its leading white space.
pub open spec fn trimmed_start(s: Seq<char>) -> Seq<char>
    decreases s.len(),
{
    if s.len() > 0 && is_white_space(s[0]) {
        trimmed_start(s.skip(1))
    } else {
        s
    }
}

/// A text without its trailing white space.
pub open spec fn trimmed_end(s: Seq<char>) -> Seq<char>
    decreases s.len(),
{
    if s.len() > 0 && is_white_space(s.last()) {
        trimmed_end(s.drop_last())
    } else {
        s
    }
}

/// A text without leading and trailing white space.
pub open spec fn trimmed(s: Seq<char>) -> Seq<char> {
    trimmed_end(trimmed_start(s))
}

/// Strip leading and trailing white space.
pub(crate) fn trim(s: &str) -> (res: &str)
    ensures
        res@ == trimmed(s@),
{
    let chars = chars_of(s);
    let n: usize = chars.len();
    let mut start: usize = 0;
    assert(s@.skip(0) =~= s@);
    while start < n && chars[start].is_whitespace()
        invariant
            start <= n,
            n == chars@.len(),
            chars@ == s@,
            trimmed_start(s@) == trimmed_start(s@.skip(start as int)),
        decreases n - start,
    {
        assert(s@.skip(start as int).skip(1) =~= s@.skip(start + 1));
        start = start + 1;
    }
    let mut end: usize = n;
    assert(s@.subrange(start as int, n as int) =~= s@.skip(start as int));
    assert(trimmed_start(s@) == s@.skip(start as int));
    while end > start && chars[end - 1].is_whitespace()
        invariant
            start <= end <= n,
            n == chars@.len(),
            chars@ == s@,
            trimmed_end(s@.skip(start as int)) == trimmed_end(s@.subrange(start as int, end as int)),
        decreases end,
    {
        assert(s@.subrange(start as int, end as int).drop_last() =~= s@.subrange(
            start as int,
            end - 1,
        ));
        end = end - 1;
    }
    s.substring_char(start, end)
}

/// Whether nothing but white space is in a text.
pub open spec fn is_blank(s: Seq<char>) -> bool {
    trimmed(s).len() == 0
}

/// Whether nothing but white space is in a text.
pub(crate) fn blank(s: &str) -> (res: bool)
    ensures
        res == is_blank(s@),
{
    trim(s).is_empty()
}

/// The lower-case form of an ASCII letter; every other character is its own.
pub open spec fn ascii_lower_char(c: char) -> char {
    if 'A' <= c && c <= 'Z' {
        ((c as u32 + 32) as u32) as char
    } else {
        c
    }
}

/// A text with its ASCII letters in lower case.
pub open spec fn ascii_lowercase(s: Seq<char>) -> Seq<char> {
    s.map_values(|c: char| ascii_lower_char(c))
}

/// `char::to_ascii_lowercase` maps the ASCII letters `A` to `Z` to `a` to `z`
/// and leaves every other character as it is.
pub assume_specification[ char::to_ascii_lowercase ](c: &char) -> (res: char)
    ensures
        res == ascii_lower_char(*c),
;

/// Put the ASCII letters of a text into lower case.
pub(crate) fn to_ascii_lowercase(s: &str) -> (res: String)
    ensures
        res@ == ascii_lowercase(s@),
{
    let chars = chars_of(s);
    let mut out = String::new();
    let n: usize = chars.len();
    let mut i: usize = 0;
    while i < n
        invariant
            i <= n,
            n == chars@.len(),
            chars@ == s@,
            out@ == ascii_lowercase(s@).take(i as int),
        decreases n - i,
    {
        out.push(chars[i].to_ascii_lowercase());
        i = i + 1;
        assert(ascii_lowercase(s@).take(i as int) =~= ascii_lowercase(s@).take(i - 1).push(
            ascii_lower_char(s@[i - 1]),
        ));
    }
    assert(ascii_lowercase(s@).take(n as int) =~= ascii_lowercase(s@));
    out
}

/// Whether `part` stands in `s` at position `at`.
pub open spec fn stands_at(s: Seq<char>, part: Seq<char>, at: int) -> bool {
    0 <= at && at + part.len() <= s.len() && s.subrange(at, at + part.len()) == part
}

/// Whether `s` begins with `prefix`.
pub open spec fn begins_with(s: Seq<char>, prefix: Seq<char>) -> bool {
    stands_at(s, prefix, 0)
}

/// Whether `s` ends with `suffix`.
pub open spec fn finishes_with(s: Seq<char>, suffix: Seq<char>) -> bool {
    stands_at(s, suffix, s.len() - suffix.len())
}

/// Whether `part` stands anywhere in `s`.
pub open spec fn has_part(s: Seq<char>, part: Seq<char>) -> bool {
    exists|at: int| stands_at(s, part, at)
}

fn part_at(s: &Vec<char>, part: &Vec<char>, at: usize) -> (res: bool)
    ensures
        res == stands_at(s@, part@, at as int),
{
    let n: usize = s.len();
    if part.len() > n || at > n - part.len() {
        return false;
    }
    let mut i: usize = 0;
    while i < part.len()
        invariant
            i <= part@.len(),
            at + part@.len() <= n,
            n == s@.len(),
            forall|j: int| 0 <= j < i ==> s@[at + j] == #[trigger] part@[j],
        decreases part@.len() - i,
    {
        if s[at + i] != part[i] {
            assert(s@.subrange(at as int, at + part@.len())[i as int] != part@[i as int]);
            return false;
        }
        i = i + 1;
    }
    assert(s@.subrange(at as int, at + part@.len()) =~= part@);
    true
}

/// Whether `s` begins with `prefix`.
pub(crate) fn starts_with(s: &str, prefix: &str) -> (res: bool)
    ensures
        res == begins_with(s@, prefix@),
{
    part_at(&chars_of(s), &chars_of(prefix), 0)
}

/// Whether `s` ends with `suffix`.
pub(crate) fn ends_with(s: &str, suffix: &str) -> (res: bool)
    ensures
        res == finishes_with(s@, suffix@),
{
    let text = chars_of(s);
    let part = chars_of(suffix);
    part.len() <= text.len() && part_at(&text, &part, text.len() - part.len())
}

/// Whether `part` stands anywhere in `s`.
pub(crate) fn contains(s: &str, part: &str) -> (res: bool)
    ensures
        res == has_part(s@, part@),
{
    let text = chars_of(s);
    let wanted = chars_of(part);
    let mut at: usize = 0;
    loop
        invariant
            at <= text@.len(),
            text@ == s@,
            wanted@ == part@,
            forall|i: int| 0 <= i < at ==> !stands_at(s@, part@, i),
        decreases text@.len() - at,
    {
        if part_at(&text, &wanted, at) {
            return true;
        }
        if at == text.len() {
            return false;
        }
        at = at + 1;
    }
}

/// What follows `prefix` in `s`, where `s` begins with it.
pub open spec fn after_prefix(s: Seq<char>, prefix: Seq<char>) -> Option<Seq<char>> {
    if begins_with(s, prefix) {
        Some(s.skip(prefix.len() as int))
    } else {
        None
    }
}

/// What follows `prefix` in `s`, where `s` begins with it.
pub(crate) fn strip_prefix<'a>(s: &'a str, prefix: &str) -> (res: Option<&'a str>)
    ensures
        res is Some <==> after_prefix(s@, prefix@) is Some,
        res matches Some(rest) ==> after_prefix(s@, prefix@) == Some(rest@),
{
    let text = chars_of(s);
    let part = chars_of(prefix);
    if part_at(&text, &part, 0) {
        let rest = s.substring_char(part.len(), text.len());
        assert(rest@ =~= s@.skip(prefix@.len() as int));
        Some(rest)
    } else {
        None
    }
}

/// The position of the first `sep` in `s`, or the length of `s`.
pub open spec fn first_position(s: Seq<char>, sep: char) -> int
    decreases s.len(),
{
    if s.len() == 0 || s[0] == sep {
        0
    } else {
        1 + first_position(s.skip(1), sep)
    }
}

/// The first position holds the separator, and nothing before it does.
pub proof fn lemma_first_position(s: Seq<char>, sep: char)
    ensures
        0 <= first_position(s, sep) <= s.len(),
        first_position(s, sep) < s.len() ==> s[first_position(s, sep)] == sep,
        forall|i: int| 0 <= i < first_position(s, sep) ==> #[trigger] s[i] != sep,
    decreases s.len(),
{
    if s.len() > 0 && s[0] != sep {
        lemma_first_position(s.skip(1), sep);
        assert forall|i: int| 0 <= i < first_position(s, sep) implies #[trigger] s[i] != sep by {
            if i > 0 {
                assert(s.skip(1)[i - 1] == s[i]);
            }
        }
    }
}

/// A position that holds the separator with none before it is the first.
pub proof fn lemma_first_position_is(s: Seq<char>, sep: char, at: int)
    requires
        0 <= at <= s.len(),
        at < s.len() ==> s[at] == sep,
        forall|i: int| 0 <= i < at ==> #[trigger] s[i] != sep,
    ensures
        first_position(s, sep) == at,
{
    lemma_first_position(s, sep);
    let f = first_position(s, sep);
    if f < at {
        assert(s[f] != sep);
    }
}

/// The parts of `s` before and after its first `sep`.
pub open spec fn halves(s: Seq<char>, sep: char) -> Option<(Seq<char>, Seq<char>)> {
    let at = first_position(s, sep);
    if at < s.len() {
        Some((s.take(at), s.skip(at + 1)))
    } else {
        None
    }
}

fn position_of(s: &Vec<char>, sep: char) -> (res: usize)
    ensures
        res == first_position(s@, sep),
        res <= s@.len(),
{
    let mut i: usize = 0;
    while i < s.len() && s[i] != sep
        invariant
            i <= s@.len(),
            forall|j: int| 0 <= j < i ==> #[trigger] s@[j] != sep,
        decreases s@.len() - i,
    {
        i = i + 1;
    }
    proof {
        lemma_first_position_is(s@, sep, i as int);
    }
    i
}

/// The parts of `s` before and after its first `sep`.
pub(crate) fn split_once<'a>(s: &'a str, sep: char) -> (res: Option<(&'a str, &'a str)>)
    ensures
        res is Some <==> halves(s@, sep) is Some,
        res matches Some((a, b)) ==> halves(s@, sep) == Some((a@, b@)),
{
    let text = chars_of(s);
    let at = position_of(&text, sep);
    if at < text.len() {
        let a = s.substring_char(0, at);
        let b = s.substring_char(at + 1, text.len());
        assert(a@ =~= s@.take(at as int));
        assert(b@ =~= s@.skip(at + 1));
        Some((a, b))
    } else {
        None
    }
}

/// The parts of `s` between its separators, in order; always at least one.
pub open spec fn parts(s: Seq<char>, sep: char) -> Seq<Seq<char>>
    decreases s.len(),
    via parts_decreases
{
    match halves(s, sep) {
        Some((first, rest)) => seq![first] + parts(rest, sep),
        None => seq![s],
    }
}

#[via_fn]
proof fn parts_decreases(s: Seq<char>, sep: char) {
    lemma_first_position(s, sep);
}

/// The parts of a text between its separators, in order.
pub(crate) fn split(s: &str, sep: char) -> (res: Vec<String>)
    ensures
        views(res@) == parts(s@, sep),
{
    let mut out: Vec<String> = Vec::new();
    let mut rest: &str = s;
    assert(views(out@) + parts(s@, sep) =~= parts(s@, sep));
    loop
        invariant
            views(out@) + parts(rest@, sep) == parts(s@, sep),
        decreases rest@.len(),
    {
        let ghost before = views(out@);
        match split_once(rest, sep) {
            Some((first, tail)) => {
                proof {
                    lemma_first_position(rest@, sep);
                }
                out.push(first.to_owned());
                assert(views(out@) =~= before.push(first@));
                assert(views(out@) + parts(tail@, sep) =~= before + (seq![first@] + parts(
                    tail@,
                    sep,
                )));
                rest = tail;
            },
            None => {
                out.push(rest.to_owned());
                assert(views(out@) =~= before + seq![rest@]);
                return out;
            },
        }
    }
}

/// The views of a list of texts.
pub open spec fn views(list: Seq<String>) -> Seq<Seq<char>> {
    list.map_values(|item: String| item@)
}

/// The view of a text that may be absent.
pub open spec fn optional(text: Option<String>) -> Option<Seq<char>> {
    match text {
        Some(text) => Some(text@),
        None => None,
    }
}

/// The view of a borrowed text that may be absent.
pub open spec fn optional_str(text: Option<&str>) -> Option<Seq<char>> {
    match text {
        Some(text) => Some(text@),
        None => None,
    }
}

/// The entries of a comma-separated list, trimmed, without the blank ones.
pub open spec fn list_entries(items: Seq<Seq<char>>) -> Seq<Seq<char>>
    decreases items.len(),
{
    if items.len() == 0 {
        Seq::empty()
    } else {
        let rest = list_entries(items.skip(1));
        let entry = trimmed(items[0]);
        if entry.len() == 0 {
            rest
        } else {
            seq![entry] + rest
        }
    }
}

/// Split at the commas, trim the entries and drop the blank ones.
pub(crate) fn comma_list(raw: &str) -> (res: Vec<String>)
    ensures
        views(res@) == list_entries(parts(raw@, ',')),
{
    let mut out: Vec<String> = Vec::new();
    let mut rest: &str = raw;
    assert(views(out@) =~= Seq::empty());
    loop
        invariant
            views(out@) + list_entries(parts(rest@, ',')) == list_entries(parts(raw@, ',')),
        decreases rest@.len(),
    {
        let ghost before = out@;
        match split_once(rest, ',') {
            Some((first, tail)) => {
                let entry = trim(first);
                proof {
                    lemma_first_position(rest@, ',');
                    let all = parts(rest@, ',');
                    assert(all == seq![first@] + parts(tail@, ','));
                    assert(all.skip(1) =~= parts(tail@, ','));
                    assert(all[0] == first@);
                }
                if !entry.is_empty() {
                    out.push(entry.to_owned());
                    assert(views(out@) =~= views(before).push(entry@));
                    assert(views(out@) + list_entries(parts(tail@, ',')) =~= views(before) + (
                    seq![entry@] + list_entries(parts(tail@, ','))));
                }
                rest = tail;
            },
            None => {
                let entry = trim(rest);
                proof {
                    let all = parts(rest@, ',');
                    assert(all == seq![rest@]);
                    assert(all.skip(1) =~= Seq::empty());
                    assert(list_entries(all.skip(1)) =~= Seq::empty());
                }
                if !entry.is_empty() {
                    out.push(entry.to_owned());
                    assert(views(out@) =~= views(before).push(entry@));
                    assert(views(out@) =~= views(before) + (seq![entry@] + Seq::<Seq<char>>::empty()));
                } else {
                    assert(views(out@) =~= views(out@) + Seq::<Seq<char>>::empty());
                }
                return out;
            },
        }
    }
}

/// A list of texts once more.
pub(crate) fn copy_list(list: &Vec<String>) -> (res: Vec<String>)
    ensures
        res@ == list@,
{
    let mut out: Vec<String> = Vec::new();
    let n: usize = list.len();
    let mut i: usize = 0;
    while i < n
        invariant
            i <= n,
            n == list@.len(),
            out@ == list@.take(i as int),
        decreases n - i,
    {
        out.push(list[i].clone());
        i = i + 1;
        assert(list@.take(i as int) =~= list@.take(i - 1).push(list@[i - 1]));
    }
    assert(list@.take(n as int) =~= list@);
    out
}

/// A text once more, where there is one.
pub(crate) fn copy_optional(value: &Option<String>) -> (res: Option<String>)
    ensures
        optional(res) == optional(*value),
        res is Some <==> value is Some,
{
    match value {
        Some(value) => Some(value.clone()),
        None => None,
    }
}

/// Texts in a row, with a separator between each two.
pub open spec fn joined(items: Seq<Seq<char>>, sep: Seq<char>) -> Seq<char>
    decreases items.len(),
{
    if items.len() == 0 {
        Seq::empty()
    } else if items.len() == 1 {
        items[0]
    } else {
        joined(items.drop_last(), sep) + sep + items.last()
    }
}

/// Put texts in a row, with a separator between each two.
pub(crate) fn join(items: &Vec<String>, sep: &str) -> (res: String)
    ensures
        res@ == joined(views(items@), sep@),
{
    let n: usize = items.len();
    if n == 0 {
        return String::new();
    }
    let mut out = items[0].clone();
    let mut i: usize = 1;
    assert(views(items@).take(1) =~= seq![items@[0]@]);
    while i < n
        invariant
            1 <= i <= n,
            n == items@.len(),
            out@ == joined(views(items@).take(i as int), sep@),
        decreases n - i,
    {
        out = out.concat(sep).concat(items[i].as_str());
        i = i + 1;
        let ghost all = views(items@).take(i as int);
        assert(all.drop_last() =~= views(items@).take(i - 1));
        assert(all.last() == items@[i - 1]@);
    }
    assert(views(items@).take(n as int) =~= views(items@));
    out
}

/// Two texts one after the other.
pub(crate) fn concat2(a: &str, b: &str) -> (res: String)
    ensures
        res@ == a@ + b@,
{
    a.to_owned().concat(b)
}

/// Three texts one after the other.
pub(crate) fn concat3(a: &str, b: &str, c: &str) -> (res: String)
    ensures
        res@ == a@ + b@ + c@,
{
    concat2(a, b).concat(c)
}

/// Five texts one after the other.
pub(crate) fn concat5(a: &str, b: &str, c: &str, d: &str, e: &str) -> (res: String)
    ensures
        res@ == a@ + b@ + c@ + d@ + e@,
{
    concat3(a, b, c).concat(d).concat(e)
}

proof fn lemma_trimmed_start(s: Seq<char>) -> (from: int)
    ensures
        0 <= from <= s.len(),
        trimmed_start(s) == s.skip(from),
        forall|i: int| 0 <= i < from ==> is_white_space(#[trigger] s[i]),
        from < s.len() ==> !is_white_space(s[from]),
    decreases s.len(),
{
    if s.len() > 0 && is_white_space(s[0]) {
        let rest = s.skip(1);
        let from = lemma_trimmed_start(rest);
        assert(rest.skip(from) =~= s.skip(from + 1));
        assert forall|i: int| 0 <= i < from + 1 implies is_white_space(#[trigger] s[i]) by {
            if i > 0 {
                assert(rest[i - 1] == s[i]);
            }
        }
        from + 1
    } else {
        assert(s.skip(0) =~= s);
        0
    }
}

proof fn lemma_trimmed_end(s: Seq<char>) -> (to: int)
    ensures
        0 <= to <= s.len(),
        trimmed_end(s) == s.take(to),
        forall|i: int| to <= i < s.len() ==> is_white_space(#[trigger] s[i]),
        to > 0 ==> !is_white_space(s[to - 1]),
    decreases s.len(),
{
    if s.len() > 0 && is_white_space(s.last()) {
        let rest = s.drop_last();
        let to = lemma_trimmed_end(rest);
        assert(rest.take(to) =~= s.take(to));
        assert forall|i: int| to <= i < s.len() implies is_white_space(#[trigger] s[i]) by {
            if i < s.len() - 1 {
                assert(rest[i] == s[i]);
            }
        }
        to
    } else {
        assert(s.take(s.len() as int) =~= s);
        s.len() as int
    }
}

/// Trimming takes the white space off both ends, and nothing else: what is
/// left stands in the text, with white space alone around it, and neither
/// begins nor ends with white space.
pub proof fn trimming_leaves_the_middle(s: Seq<char>) -> (ends: (int, int))
    ensures
        0 <= ends.0 <= ends.1 <= s.len(),
        trimmed(s) == s.subrange(ends.0, ends.1),
        forall|i: int| 0 <= i < ends.0 ==> is_white_space(#[trigger] s[i]),
        forall|i: int| ends.1 <= i < s.len() ==> is_white_space(#[trigger] s[i]),
        ends.0 < ends.1 ==> !is_white_space(s[ends.0]) && !is_white_space(s[ends.1 - 1]),
{
    let from = lemma_trimmed_start(s);
    let rest = s.skip(from);
    let to = lemma_trimmed_end(rest);
    assert(rest.take(to) =~= s.subrange(from, from + to));
    assert forall|i: int| from + to <= i < s.len() implies is_white_space(#[trigger] s[i]) by {
        assert(rest[i - from] == s[i]);
    }
    (from, from + to)
}

/// A text is blank exactly where every character of it is white space.
pub proof fn blank_texts_are_white_space(s: Seq<char>)
    ensures
        is_blank(s) <==> forall|i: int| 0 <= i < s.len() ==> is_white_space(#[trigger] s[i]),
{
    let ends = trimming_leaves_the_middle(s);
    if is_blank(s) {
        assert(trimmed(s).len() == ends.1 - ends.0);
    }
}

/// Lower case changes the letters `A` to `Z` alone, each to the letter of its
/// place in `a` to `z`.
pub proof fn letters_keep_their_place(s: Seq<char>, i: int)
    requires
        0 <= i < s.len(),
    ensures
        ascii_lowercase(s).len() == s.len(),
        'A' <= s[i] <= 'Z' ==> ascii_lowercase(s)[i] as int - 'a' as int == s[i] as int
            - 'A' as int,
        !('A' <= s[i] <= 'Z') ==> ascii_lowercase(s)[i] == s[i],
{
}

/// A number may be written with a plus sign, which does not change it; it is
/// within a limit exactly where its value is.
pub proof fn plus_signs_do_not_count(n: nat, max: nat)
    ensures
        unsigned_value(seq!['+'] + decimal(n)) == Some(n),
        spells_up_to(decimal(n), max) <==> n <= max,
        spells_up_to(seq!['+'] + decimal(n), max) <==> n <= max,
        unsigned_value(seq!['-'] + decimal(n)) is None,
        unsigned_value(Seq::empty()) is None,
{
    lemma_decimal(n);
    decimal_is_read_back(n);
    assert((seq!['+'] + decimal(n)).skip(1) =~= decimal(n));
    let negative = seq!['-'] + decimal(n);
    assert(without_plus(negative) == negative);
    assert(!is_digit(negative[0]));
}

/// A text begins and ends with what it is put together from, holds each part
/// of it, and gives back what follows a prefix.
pub proof fn parts_of_a_text_are_found(first: Seq<char>, middle: Seq<char>, last: Seq<char>)
    ensures
        begins_with(first + middle + last, first),
        finishes_with(first + middle + last, last),
        has_part(first + middle + last, middle),
        after_prefix(first + last, first) == Some(last),
{
    let all = first + middle + last;
    assert(all.subrange(0, first.len() as int) =~= first);
    assert(all.subrange(all.len() - last.len(), all.len() as int) =~= last);
    assert(all.subrange(first.len() as int, (first.len() + middle.len()) as int) =~= middle);
    assert(stands_at(all, middle, first.len() as int));
    assert((first + last).subrange(0, first.len() as int) =~= first);
    assert((first + last).skip(first.len() as int) =~= last);
}

/// Only a text that is put together from a prefix begins with it, and only one
/// that is put together from a suffix ends with it.
pub proof fn found_parts_stand_there(s: Seq<char>, part: Seq<char>)
    ensures
        begins_with(s, part) ==> s.len() >= part.len() && s == part + s.skip(part.len() as int),
        finishes_with(s, part) ==> s.len() >= part.len() && s == s.take(s.len() - part.len())
            + part,
        begins_with(s, part) <==> after_prefix(s, part) is Some,
{
    if begins_with(s, part) {
        assert(s =~= s.subrange(0, part.len() as int) + s.skip(part.len() as int));
    }
    if finishes_with(s, part) {
        let at = s.len() - part.len();
        assert(s =~= s.take(at) + s.subrange(at, at + part.len()));
    }
}

/// Cutting a text at its first separator takes out that separator and nothing
/// else, and a text without a separator cannot be cut.
pub proof fn halves_make_the_text(s: Seq<char>, sep: char)
    ensures
        halves(s, sep) is None <==> !s.contains(sep),
        match halves(s, sep) {
            Some((before, after)) => s == before.push(sep) + after && !before.contains(sep),
            None => true,
        },
{
    lemma_first_position(s, sep);
    let at = first_position(s, sep);
    if at < s.len() {
        assert(s[at] == sep);
        assert(s =~= s.take(at).push(sep) + s.skip(at + 1));
        assert forall|i: int| 0 <= i < at implies s.take(at)[i] != sep by {
            assert(s[i] != sep);
        }
    } else {
        assert forall|i: int| 0 <= i < s.len() implies s[i] != sep by {}
    }
}

proof fn lemma_joined_front(first: Seq<char>, rest: Seq<Seq<char>>, sep: Seq<char>)
    requires
        rest.len() > 0,
    ensures
        joined(seq![first] + rest, sep) == first + sep + joined(rest, sep),
    decreases rest.len(),
{
    let all = seq![first] + rest;
    if rest.len() == 1 {
        assert(all.drop_last() =~= seq![first]);
        assert(joined(all.drop_last(), sep) == first);
    } else {
        lemma_joined_front(first, rest.drop_last(), sep);
        assert(all.drop_last() =~= seq![first] + rest.drop_last());
        assert(all.last() == rest.last());
    }
    assert(joined(all, sep) =~= first + sep + joined(rest, sep));
}

/// Splitting a text is undone by joining its parts again with the separator,
/// and no part holds the separator.
pub proof fn split_texts_are_joined_again(s: Seq<char>, sep: char)
    ensures
        parts(s, sep).len() > 0,
        joined(parts(s, sep), seq![sep]) == s,
        forall|i: int| 0 <= i < parts(s, sep).len() ==> !(#[trigger] parts(s, sep)[i]).contains(sep),
    decreases s.len(),
{
    halves_make_the_text(s, sep);
    match halves(s, sep) {
        Some((first, rest)) => {
            split_texts_are_joined_again(rest, sep);
            let tail = parts(rest, sep);
            lemma_joined_front(first, tail, seq![sep]);
            assert(first + seq![sep] + rest =~= s);
            assert forall|i: int| 0 <= i < parts(s, sep).len() implies !(#[trigger] parts(
                s,
                sep,
            )[i]).contains(sep) by {
                if i > 0 {
                    assert(parts(s, sep)[i] == tail[i - 1]);
                }
            }
        },
        None => {},
    }
}

/// The entries of two lists one after the other are the entries of the first
/// and then those of the second; one item is an entry once it is trimmed, and
/// none if it is blank.
pub proof fn entries_are_taken_item_by_item(first: Seq<Seq<char>>, second: Seq<Seq<char>>, item: Seq<char>)
    ensures
        list_entries(first + second) == list_entries(first) + list_entries(second),
        is_blank(item) ==> list_entries(seq![item]) == Seq::<Seq<char>>::empty(),
        !is_blank(item) ==> list_entries(seq![item]) == seq![trimmed(item)],
    decreases first.len(),
{
    assert(seq![item].skip(1) =~= Seq::empty());
    assert(list_entries(Seq::<Seq<char>>::empty()) =~= Seq::empty());
    assert(list_entries(seq![item].skip(1)) =~= Seq::empty());
    if is_blank(item) {
        assert(list_entries(seq![item]) =~= Seq::empty());
    } else {
        assert(list_entries(seq![item]) =~= seq![trimmed(item)]);
    }
    if first.len() == 0 {
        assert(first + second =~= second);
        assert(list_entries(first) + list_entries(second) =~= list_entries(second));
    } else {
        entries_are_taken_item_by_item(first.skip(1), second, item);
        assert((first + second).skip(1) =~= first.skip(1) + second);
        assert(list_entries(first + second) =~= list_entries(first) + list_entries(second));
    }
}

} // verus!
