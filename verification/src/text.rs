//! Text as a sequence of characters: the cuts, searches and numerals the rest
//! of the library is stated in.
use vstd::prelude::*;

verus! {

/// `String::push` puts one character behind the others.
pub assume_specification[ String::push ](target: &mut String, ch: char)
    ensures
        final(target)@ == old(target)@.push(ch),
;

/// `char::is_whitespace` answers whether the character has the Unicode
/// property `White_Space`, whose members [`is_space`] lists.
pub assume_specification[ char::is_whitespace ](c: char) -> (b: bool)
    ensures
        b == is_space(c),
;

/// `char::is_control` answers whether the character is in the Unicode general
/// category `Cc`, which [`is_control_code`] spells out.
pub assume_specification[ char::is_control ](c: char) -> (b: bool)
    ensures
        b == is_control_code(c),
;

/// What `str::to_lowercase` makes of a text.
pub uninterp spec fn lowercase(s: Seq<char>) -> Seq<char>;

/// `str::to_lowercase` maps a text by Unicode's lower-case rules. Of a text
/// within ASCII the rules say no more than that `A` to `Z` become `a` to `z`.
pub assume_specification[ str::to_lowercase ](s: &str) -> (r: String)
    ensures
        r@ == lowercase(s@),
        all_ascii(s@) ==> r@ == ascii_lowered(s@),
;

/// The members of the Unicode property `White_Space`.
pub open spec fn is_space(c: char) -> bool {
    ||| 0x09 <= c as u32 <= 0x0d
    ||| c as u32 == 0x20
    ||| c as u32 == 0x85
    ||| c as u32 == 0xa0
    ||| c as u32 == 0x1680
    ||| 0x2000 <= c as u32 <= 0x200a
    ||| c as u32 == 0x2028
    ||| c as u32 == 0x2029
    ||| c as u32 == 0x202f
    ||| c as u32 == 0x205f
    ||| c as u32 == 0x3000
}

/// The control codes: the Unicode general category `Cc`.
pub open spec fn is_control_code(c: char) -> bool {
    c as u32 <= 0x1f || 0x7f <= c as u32 <= 0x9f
}

pub open spec fn all_ascii(s: Seq<char>) -> bool {
    forall|i: int| 0 <= i < s.len() ==> (#[trigger] s[i]) as u32 <= 0x7f
}

/// `A` to `Z` as `a` to `z`, everything else as it is.
pub open spec fn ascii_lower(c: char) -> char {
    if 'A' <= c && c <= 'Z' {
        (c as u32 + 32) as char
    } else {
        c
    }
}

pub open spec fn ascii_lowered(s: Seq<char>) -> Seq<char> {
    s.map_values(|c: char| ascii_lower(c))
}

/// Lower-casing by Unicode's rules, as a function on texts.
pub open spec fn folding() -> spec_fn(Seq<char>) -> Seq<char> {
    |s: Seq<char>| lowercase(s)
}

/// Lower-casing of `A` to `Z` alone, as a function on texts. On texts within
/// ASCII it is [`folding`].
pub open spec fn ascii_folding() -> spec_fn(Seq<char>) -> Seq<char> {
    |s: Seq<char>| ascii_lowered(s)
}

/// A letter or a digit of ASCII.
pub open spec fn is_alnum(c: char) -> bool {
    ('a' <= c && c <= 'z') || ('A' <= c && c <= 'Z') || ('0' <= c && c <= '9')
}

/// The texts a list of strings holds.
pub open spec fn texts(v: Seq<String>) -> Seq<Seq<char>> {
    v.map_values(|t: String| t@)
}

/// The text an optional string holds.
pub open spec fn opt_text(v: Option<String>) -> Option<Seq<char>> {
    match v {
        Some(t) => Some(t@),
        None => None,
    }
}

/// The text an optional string slice holds.
pub open spec fn opt_str(v: Option<&str>) -> Option<Seq<char>> {
    match v {
        Some(t) => Some(t@),
        None => None,
    }
}

/// Where `c` first stands in `s`; the length of `s` when it does not.
pub open spec fn first_at(s: Seq<char>, c: char) -> int
    decreases s.len(),
{
    if s.len() == 0 || s[0] == c {
        0
    } else {
        1 + first_at(s.drop_first(), c)
    }
}

/// The pieces of `s` between the occurrences of `c`: one more than there are
/// occurrences.
pub open spec fn split_on(s: Seq<char>, c: char) -> Seq<Seq<char>>
    decreases s.len(),
    via split_on_shrinks
{
    let at = first_at(s, c);
    if at < s.len() {
        seq![s.take(at)] + split_on(s.skip(at + 1), c)
    } else {
        seq![s]
    }
}

#[via_fn]
proof fn split_on_shrinks(s: Seq<char>, c: char) {
    lemma_first_at(s, c);
}

/// The text before the first `c` and the text after it.
pub open spec fn cut_at(s: Seq<char>, c: char) -> Option<(Seq<char>, Seq<char>)> {
    let at = first_at(s, c);
    if at < s.len() {
        Some((s.take(at), s.skip(at + 1)))
    } else {
        None
    }
}

/// Whether `needle` stands in `s` at `i`.
pub open spec fn stands_at(s: Seq<char>, needle: Seq<char>, i: int) -> bool {
    0 <= i && i + needle.len() <= s.len() && s.subrange(i, i + needle.len()) == needle
}

/// Whether `needle` stands anywhere in `s`.
pub open spec fn holds_text(s: Seq<char>, needle: Seq<char>) -> bool {
    exists|i: int| #[trigger] stands_at(s, needle, i)
}

/// Where `needle` first stands in `s` at or behind `from`.
pub open spec fn find_from(s: Seq<char>, needle: Seq<char>, from: int) -> Option<int>
    decreases s.len() - from + 1,
{
    if from < 0 || from + needle.len() > s.len() {
        None
    } else if stands_at(s, needle, from) {
        Some(from)
    } else {
        find_from(s, needle, from + 1)
    }
}

/// `s` without the white space it starts with.
pub open spec fn trim_front(s: Seq<char>) -> Seq<char>
    decreases s.len(),
{
    if s.len() > 0 && is_space(s[0]) {
        trim_front(s.drop_first())
    } else {
        s
    }
}

/// `s` without the white space it ends with.
pub open spec fn trim_back(s: Seq<char>) -> Seq<char>
    decreases s.len(),
{
    if s.len() > 0 && is_space(s.last()) {
        trim_back(s.drop_last())
    } else {
        s
    }
}

/// `s` without the white space around it.
pub open spec fn trimmed(s: Seq<char>) -> Seq<char> {
    trim_back(trim_front(s))
}

/// `parts` one behind the other with `sep` between each two.
pub open spec fn joined(parts: Seq<Seq<char>>, sep: Seq<char>) -> Seq<char>
    decreases parts.len(),
{
    if parts.len() == 0 {
        Seq::empty()
    } else if parts.len() == 1 {
        parts[0]
    } else {
        joined(parts.drop_last(), sep) + sep + parts.last()
    }
}

/// The characters of `s` that `f` lets stay, in their order.
pub open spec fn keep(s: Seq<char>, f: spec_fn(char) -> bool) -> Seq<char>
    decreases s.len(),
{
    if s.len() == 0 {
        Seq::empty()
    } else {
        let head = keep(s.drop_last(), f);
        if f(s.last()) {
            head.push(s.last())
        } else {
            head
        }
    }
}

/// The parts that `f` lets stay, in their order.
pub open spec fn keep_parts(parts: Seq<Seq<char>>, f: spec_fn(Seq<char>) -> bool) -> Seq<Seq<char>>
    decreases parts.len(),
{
    if parts.len() == 0 {
        Seq::empty()
    } else {
        let head = keep_parts(parts.drop_last(), f);
        if f(parts.last()) {
            head.push(parts.last())
        } else {
            head
        }
    }
}

/// Whether `c` stands nowhere in `s`.
pub open spec fn free_of(s: Seq<char>, c: char) -> bool {
    forall|i: int| 0 <= i < s.len() ==> #[trigger] s[i] != c
}

/// The digit `d` stands for in a numeral of base ten or sixteen.
pub open spec fn digit(d: int) -> char {
    if d == 0 { '0' } else if d == 1 { '1' } else if d == 2 { '2' } else if d == 3 { '3' }
    else if d == 4 { '4' } else if d == 5 { '5' } else if d == 6 { '6' } else if d == 7 { '7' }
    else if d == 8 { '8' } else if d == 9 { '9' } else if d == 10 { 'a' } else if d == 11 { 'b' }
    else if d == 12 { 'c' } else if d == 13 { 'd' } else if d == 14 { 'e' } else { 'f' }
}

/// The numeral of `n` in base `base`, without leading zeros.
pub open spec fn numeral(n: nat, base: nat) -> Seq<char>
    decreases n,
{
    if base < 2 {
        Seq::empty()
    } else if n < base {
        seq![digit(n as int)]
    } else {
        proof {
            assert(n / base < n) by (nonlinear_arith)
                requires
                    n >= base,
                    base >= 2,
            ;
        }
        numeral(n / base, base).push(digit((n % base) as int))
    }
}

/// The decimal numeral of a whole number, with a minus before a negative one.
pub open spec fn int_numeral(n: int) -> Seq<char> {
    if n < 0 {
        seq!['-'] + numeral((-n) as nat, 10)
    } else {
        numeral(n as nat, 10)
    }
}

pub open spec fn is_digit(c: char) -> bool {
    '0' <= c && c <= '9'
}

pub open spec fn all_digits(s: Seq<char>) -> bool {
    forall|i: int| 0 <= i < s.len() ==> is_digit(#[trigger] s[i])
}

/// The number a run of decimal digits names.
pub open spec fn digits_value(s: Seq<char>) -> int
    decreases s.len(),
{
    if s.len() == 0 {
        0
    } else {
        digits_value(s.drop_last()) * 10 + (s.last() as int - '0' as int)
    }
}

/// The number a text names, as the unsigned integers read it: digits and no
/// more, but for a plus that may stand before them.
pub open spec fn read_unsigned(s: Seq<char>) -> Option<int> {
    let body = if s.len() > 0 && s[0] == '+' { s.drop_first() } else { s };
    if body.len() > 0 && all_digits(body) {
        Some(digits_value(body))
    } else {
        None
    }
}

/// The number a text names, as the signed integers read it: a sign may stand
/// before the digits.
pub open spec fn read_signed(s: Seq<char>) -> Option<int> {
    if s.len() > 1 && s[0] == '-' {
        if all_digits(s.drop_first()) {
            Some(-digits_value(s.drop_first()))
        } else {
            None
        }
    } else {
        read_unsigned(s)
    }
}

/// The position of the first `c` bounds everything before it.
pub proof fn lemma_first_at(s: Seq<char>, c: char)
    ensures
        0 <= first_at(s, c) <= s.len(),
        forall|i: int| 0 <= i < first_at(s, c) ==> s[i] != c,
        first_at(s, c) < s.len() ==> s[first_at(s, c)] == c,
    decreases s.len(),
{
    if s.len() > 0 && s[0] != c {
        let rest = s.drop_first();
        lemma_first_at(rest, c);
        assert forall|i: int| 0 <= i < first_at(s, c) implies s[i] != c by {
            if i > 0 {
                assert(s[i] == rest[i - 1]);
            }
        }
    }
}

/// The first position at which `c` stands is where [`first_at`] says.
pub proof fn lemma_first_at_is(s: Seq<char>, c: char, at: int)
    requires
        0 <= at <= s.len(),
        forall|i: int| 0 <= i < at ==> s[i] != c,
        at < s.len() ==> s[at] == c,
    ensures
        first_at(s, c) == at,
{
    lemma_first_at(s, c);
    let found = first_at(s, c);
    if found < at {
        assert(s[found] != c);
    }
    if at < found {
        assert(s[at] != c);
    }
}

/// What stays is what was there and what `f` lets stay.
pub proof fn lemma_keep(s: Seq<char>, f: spec_fn(char) -> bool)
    ensures
        forall|i: int| 0 <= i < keep(s, f).len() ==> f(#[trigger] keep(s, f)[i]) && s.contains(keep(s, f)[i]),
    decreases s.len(),
{
    if s.len() > 0 {
        let t = s.drop_last();
        lemma_keep(t, f);
        assert forall|i: int| 0 <= i < keep(s, f).len() implies f(#[trigger] keep(s, f)[i]) && s.contains(
            keep(s, f)[i],
        ) by {
            if i < keep(t, f).len() {
                let c = keep(t, f)[i];
                assert(t.contains(c));
                let k = choose|k: int| 0 <= k < t.len() && t[k] == c;
                assert(s[k] == c);
            } else {
                assert(s[s.len() - 1] == s.last());
            }
        }
    }
}

/// What stays of the parts is what was among them and what `f` lets stay.
pub proof fn lemma_keep_parts(parts: Seq<Seq<char>>, f: spec_fn(Seq<char>) -> bool)
    ensures
        keep_parts(parts, f).len() <= parts.len(),
        forall|i: int|
            0 <= i < keep_parts(parts, f).len() ==> f(#[trigger] keep_parts(parts, f)[i])
                && parts.contains(keep_parts(parts, f)[i]),
    decreases parts.len(),
{
    if parts.len() > 0 {
        let t = parts.drop_last();
        lemma_keep_parts(t, f);
        assert forall|i: int| 0 <= i < keep_parts(parts, f).len() implies f(
            #[trigger] keep_parts(parts, f)[i],
        ) && parts.contains(keep_parts(parts, f)[i]) by {
            if i < keep_parts(t, f).len() {
                let c = keep_parts(t, f)[i];
                assert(t.contains(c));
                let k = choose|k: int| 0 <= k < t.len() && t[k] == c;
                assert(parts[k] == c);
            } else {
                assert(parts[parts.len() - 1] == parts.last());
            }
        }
    }
}

/// Parts that `f` lets stay all stay.
pub proof fn lemma_keep_all(parts: Seq<Seq<char>>, f: spec_fn(Seq<char>) -> bool)
    requires
        forall|i: int| 0 <= i < parts.len() ==> f(#[trigger] parts[i]),
    ensures
        keep_parts(parts, f) == parts,
    decreases parts.len(),
{
    if parts.len() > 0 {
        let t = parts.drop_last();
        assert forall|i: int| 0 <= i < t.len() implies f(#[trigger] t[i]) by {
            assert(t[i] == parts[i]);
        }
        lemma_keep_all(t, f);
        assert(f(parts[parts.len() - 1]));
        assert(t.push(parts.last()) == parts);
    }
}

/// The pieces between two occurrences of `c` hold none.
pub proof fn lemma_split_free(s: Seq<char>, c: char)
    ensures
        split_on(s, c).len() >= 1,
        forall|i: int| 0 <= i < split_on(s, c).len() ==> free_of(#[trigger] split_on(s, c)[i], c),
    decreases s.len(),
{
    lemma_first_at(s, c);
    let at = first_at(s, c);
    if at < s.len() {
        let rest = s.skip(at + 1);
        lemma_split_free(rest, c);
        assert forall|i: int| 0 <= i < split_on(s, c).len() implies free_of(
            #[trigger] split_on(s, c)[i],
            c,
        ) by {
            if i > 0 {
                assert(split_on(s, c)[i] == split_on(rest, c)[i - 1]);
            }
        }
    }
}

/// A piece without `c`, then `c`, then more: the piece comes off the front.
pub proof fn lemma_split_front(a: Seq<char>, c: char, b: Seq<char>)
    requires
        free_of(a, c),
    ensures
        split_on(a + seq![c] + b, c) == seq![a] + split_on(b, c),
        cut_at(a + seq![c] + b, c) == Some((a, b)),
{
    let s = a + seq![c] + b;
    lemma_first_at_is(s, c, a.len() as int);
    assert(s.take(a.len() as int) == a);
    assert(s.skip(a.len() as int + 1) == b);
}

/// What stands on either side of a `c` is split by itself.
pub proof fn lemma_split_concat(a: Seq<char>, c: char, b: Seq<char>)
    ensures
        split_on(a + seq![c] + b, c) == split_on(a, c) + split_on(b, c),
    decreases a.len(),
{
    lemma_first_at(a, c);
    let at = first_at(a, c);
    if at < a.len() {
        let head = a.take(at);
        let rest = a.skip(at + 1);
        lemma_split_concat(rest, c, b);
        assert(a + seq![c] + b == head + seq![c] + (rest + seq![c] + b));
        lemma_split_front(head, c, rest + seq![c] + b);
        assert(split_on(a, c) == seq![head] + split_on(rest, c));
        assert(seq![head] + (split_on(rest, c) + split_on(b, c)) == (seq![head] + split_on(rest, c))
            + split_on(b, c));
    } else {
        lemma_split_front(a, c, b);
        lemma_split_none(a, c);
    }
}

/// A text without `c` is one piece.
pub proof fn lemma_split_none(a: Seq<char>, c: char)
    requires
        free_of(a, c),
    ensures
        split_on(a, c) == seq![a],
        cut_at(a, c) is None,
{
    lemma_first_at_is(a, c, a.len() as int);
}

/// A joined list starts with its first part.
pub proof fn lemma_joined_front(parts: Seq<Seq<char>>, sep: Seq<char>)
    requires
        parts.len() >= 2,
    ensures
        joined(parts, sep) == parts[0] + sep + joined(parts.drop_first(), sep),
    decreases parts.len(),
{
    if parts.len() == 2 {
        assert(parts.drop_last() == seq![parts[0]]);
        assert(joined(parts.drop_last(), sep) == parts[0]);
        assert(parts.drop_first() == seq![parts[1]]);
        assert(joined(parts.drop_first(), sep) == parts[1]);
    } else {
        let init = parts.drop_last();
        lemma_joined_front(init, sep);
        assert(init.drop_first() == parts.drop_first().drop_last());
        assert(parts.drop_first().last() == parts.last());
        assert(joined(parts, sep) == joined(init, sep) + sep + parts.last());
        assert((parts[0] + sep + joined(init.drop_first(), sep)) + sep + parts.last() == parts[0]
            + sep + (joined(init.drop_first(), sep) + sep + parts.last()));
    }
}

/// Splitting undoes joining.
pub proof fn lemma_split_joined(parts: Seq<Seq<char>>, c: char)
    requires
        parts.len() >= 1,
        forall|i: int| 0 <= i < parts.len() ==> free_of(#[trigger] parts[i], c),
    ensures
        split_on(joined(parts, seq![c]), c) == parts,
    decreases parts.len(),
{
    if parts.len() == 1 {
        lemma_split_none(parts[0], c);
        assert(seq![parts[0]] == parts);
    } else {
        let rest = parts.drop_first();
        lemma_joined_front(parts, seq![c]);
        assert forall|i: int| 0 <= i < rest.len() implies free_of(#[trigger] rest[i], c) by {
            assert(rest[i] == parts[i + 1]);
        }
        lemma_split_joined(rest, c);
        lemma_split_front(parts[0], c, joined(rest, seq![c]));
        assert(seq![parts[0]] + rest == parts);
    }
}

/// The characters of a text, one by one.
pub fn letters(s: &str) -> (r: Vec<char>)
    ensures
        r@ == s@,
{
    let mut out: Vec<char> = Vec::new();
    for c in it: s.chars()
        invariant
            it.seq() == s@,
            out@ == it.seq().take(it.index() as int),
    {
        out.push(c);
    }
    out
}

/// The text of the characters from `from` up to `to`.
pub fn text_of(v: &Vec<char>, from: usize, to: usize) -> (r: String)
    requires
        from <= to <= v.len(),
    ensures
        r@ == v@.subrange(from as int, to as int),
{
    let mut out = String::new();
    let mut i: usize = from;
    while i < to
        invariant
            from <= i <= to <= v.len(),
            out@ == v@.subrange(from as int, i as int),
        decreases to - i,
    {
        out.push(v[i]);
        i += 1;
    }
    out
}

/// Whether two texts are the same.
pub fn same(a: &str, b: &str) -> (r: bool)
    ensures
        r == (a@ == b@),
{
    a.to_owned() == b.to_owned()
}

/// A copy of an optional text.
pub fn copy_option(a: &Option<String>) -> (r: Option<String>)
    ensures
        r == *a,
{
    match a {
        Some(a) => Some(a.clone()),
        None => None,
    }
}

/// `a` with `b` behind it.
pub fn glue(a: &str, b: &str) -> (r: String)
    ensures
        r@ == a@ + b@,
{
    let mut out = a.to_owned();
    out.append(b);
    out
}

/// The pieces of `s` between the occurrences of `sep`.
pub fn split(s: &str, sep: char) -> (r: Vec<String>)
    ensures
        texts(r@) == split_on(s@, sep),
{
    let v = letters(s);
    let mut out: Vec<String> = Vec::new();
    let mut start: usize = 0;
    let mut i: usize = 0;
    assert(v@.skip(0) == v@);
    while i < v.len()
        invariant
            start <= i <= v.len(),
            forall|k: int| start <= k < i ==> v@[k] != sep,
            split_on(v@, sep) == texts(out@) + split_on(v@.skip(start as int), sep),
        decreases v.len() - i,
    {
        if v[i] == sep {
            let ghost rest = v@.skip(start as int);
            let ghost before = out@;
            let ghost at = i - start;
            proof {
                lemma_first_at_is(rest, sep, at);
                assert(rest.take(at) == v@.subrange(start as int, i as int));
                assert(rest.skip(at + 1) == v@.skip(i + 1));
                assert(split_on(rest, sep) == seq![rest.take(at)] + split_on(rest.skip(at + 1), sep));
            }
            out.push(text_of(&v, start, i));
            proof {
                assert(texts(out@) == texts(before).push(rest.take(at)));
                assert(texts(before) + (seq![rest.take(at)] + split_on(v@.skip(i + 1), sep))
                    == texts(out@) + split_on(v@.skip(i + 1), sep));
            }
            start = i + 1;
        }
        i += 1;
    }
    let ghost rest = v@.skip(start as int);
    let ghost before = out@;
    proof {
        lemma_first_at_is(rest, sep, rest.len() as int);
        assert(rest == v@.subrange(start as int, v@.len() as int));
    }
    out.push(text_of(&v, start, v.len()));
    proof {
        assert(texts(out@) == texts(before).push(rest));
        assert(texts(before) + seq![rest] == texts(out@));
    }
    out
}

/// The text before the first `sep` and the text after it, where there is one.
pub fn split_once(s: &str, sep: char) -> (r: Option<(String, String)>)
    ensures
        match r {
            Some((a, b)) => cut_at(s@, sep) == Some((a@, b@)),
            None => cut_at(s@, sep) is None,
        },
{
    let v = letters(s);
    let mut i: usize = 0;
    while i < v.len()
        invariant
            i <= v.len(),
            v@ == s@,
            forall|k: int| 0 <= k < i ==> v@[k] != sep,
        decreases v.len() - i,
    {
        if v[i] == sep {
            proof {
                lemma_first_at_is(v@, sep, i as int);
                assert(v@.take(i as int) == v@.subrange(0, i as int));
                assert(v@.skip(i + 1) == v@.subrange(i + 1, v@.len() as int));
            }
            return Some((text_of(&v, 0, i), text_of(&v, i + 1, v.len())));
        }
        i += 1;
    }
    proof {
        lemma_first_at_is(v@, sep, v@.len() as int);
    }
    None
}

/// Whether `needle` stands in `v` at `at`.
fn matches_at(v: &Vec<char>, needle: &Vec<char>, at: usize) -> (r: bool)
    requires
        at <= v.len(),
    ensures
        r == stands_at(v@, needle@, at as int),
{
    if v.len() - at < needle.len() {
        return false;
    }
    let mut k: usize = 0;
    while k < needle.len()
        invariant
            k <= needle.len(),
            at + needle.len() <= v.len(),
            forall|j: int| 0 <= j < k ==> v@[at + j] == needle@[j],
        decreases needle.len() - k,
    {
        if v[at + k] != needle[k] {
            proof {
                assert(v@.subrange(at as int, at + needle@.len())[k as int] != needle@[k as int]);
            }
            return false;
        }
        k += 1;
    }
    proof {
        assert(v@.subrange(at as int, at + needle@.len()) =~= needle@);
    }
    true
}

/// Where `needle` first stands in `v`, counted in characters.
pub fn find_in(v: &Vec<char>, needle: &str) -> (r: Option<usize>)
    ensures
        match r {
            Some(i) => find_from(v@, needle@, 0) == Some(i as int) && i + needle@.len() <= v@.len(),
            None => find_from(v@, needle@, 0) is None,
        },
{
    let n = letters(needle);
    let mut i: usize = 0;
    while i <= v.len() && v.len() - i >= n.len()
        invariant
            i <= v.len() + 1,
            i <= usize::MAX,
            n@ == needle@,
            find_from(v@, needle@, 0) == find_from(v@, needle@, i as int),
        decreases v.len() + 1 - i,
    {
        if matches_at(v, &n, i) {
            return Some(i);
        }
        if i == v.len() {
            proof {
                assert(find_from(v@, needle@, i + 1) is None);
            }
            return None;
        }
        i += 1;
    }
    None
}

/// A text is held where it is found.
pub proof fn lemma_find_holds(s: Seq<char>, needle: Seq<char>, from: int)
    requires
        0 <= from,
    ensures
        match find_from(s, needle, from) {
            Some(at) => {
                &&& stands_at(s, needle, at)
                &&& from <= at
                &&& forall|i: int| from <= i < at ==> !stands_at(s, needle, i)
            },
            None => forall|i: int| from <= i ==> !stands_at(s, needle, i),
        },
    decreases s.len() - from + 1,
{
    if from + needle.len() > s.len() {
    } else if stands_at(s, needle, from) {
    } else {
        lemma_find_holds(s, needle, from + 1);
    }
}

/// Whether `needle` stands anywhere in `s`.
pub fn contains(s: &str, needle: &str) -> (r: bool)
    ensures
        r == holds_text(s@, needle@),
{
    let v = letters(s);
    let found = find_in(&v, needle);
    proof {
        lemma_find_holds(s@, needle@, 0);
        if found is Some {
            assert(stands_at(s@, needle@, found->0 as int));
        }
    }
    found.is_some()
}

/// Whether `c` stands anywhere in `s`.
pub fn has_char(s: &str, c: char) -> (r: bool)
    ensures
        r == !free_of(s@, c),
{
    let v = letters(s);
    let mut i: usize = 0;
    while i < v.len()
        invariant
            i <= v.len(),
            v@ == s@,
            forall|k: int| 0 <= k < i ==> v@[k] != c,
        decreases v.len() - i,
    {
        if v[i] == c {
            assert(s@[i as int] == c);
            return true;
        }
        i += 1;
    }
    false
}

/// Whether `s` starts with `head`.
pub fn starts_with(s: &str, head: &str) -> (r: bool)
    ensures
        r == head@.is_prefix_of(s@),
{
    let v = letters(s);
    let h = letters(head);
    let r = matches_at(&v, &h, 0);
    proof {
        if h@.len() <= v@.len() {
            assert(v@.subrange(0, h@.len() as int) =~= v@.take(h@.len() as int));
            if r {
                assert(h@.is_prefix_of(v@));
            } else if h@.is_prefix_of(v@) {
                assert(v@.take(h@.len() as int) =~= h@);
            }
        }
    }
    r
}

/// What stands behind `head` in `s`, where `s` starts with it.
pub fn strip_prefix(s: &str, head: &str) -> (r: Option<String>)
    ensures
        match r {
            Some(rest) => head@.is_prefix_of(s@) && rest@ == s@.skip(head@.len() as int),
            None => !head@.is_prefix_of(s@),
        },
{
    if !starts_with(s, head) {
        return None;
    }
    let v = letters(s);
    let h = letters(head);
    proof {
        assert(v@.skip(h@.len() as int) =~= v@.subrange(h@.len() as int, v@.len() as int));
    }
    Some(text_of(&v, h.len(), v.len()))
}

/// Whether `s` ends with `tail`.
pub fn ends_with(s: &str, tail: &str) -> (r: bool)
    ensures
        r == tail@.is_suffix_of(s@),
{
    let v = letters(s);
    let t = letters(tail);
    if t.len() > v.len() {
        return false;
    }
    let at: usize = v.len() - t.len();
    let r = matches_at(&v, &t, at);
    proof {
        assert(v@.subrange(at as int, v@.len() as int) =~= v@.skip(at as int));
        if r {
            assert(t@.is_suffix_of(v@));
        } else if t@.is_suffix_of(v@) {
            assert(v@.skip(at as int) =~= t@);
        }
    }
    r
}

/// `s` without the white space around it.
pub fn trim(s: &str) -> (r: String)
    ensures
        r@ == trimmed(s@),
{
    let v = letters(s);
    let mut i: usize = 0;
    assert(v@.skip(0) == v@);
    while i < v.len() && v[i].is_whitespace()
        invariant
            i <= v.len(),
            trim_front(v@) == trim_front(v@.skip(i as int)),
        decreases v.len() - i,
    {
        assert(v@.skip(i as int).drop_first() == v@.skip(i + 1));
        i += 1;
    }
    let mut j: usize = v.len();
    assert(trim_front(v@) == v@.skip(i as int));
    assert(v@.skip(i as int) == v@.subrange(i as int, j as int));
    while j > i && v[j - 1].is_whitespace()
        invariant
            i <= j <= v.len(),
            trimmed(v@) == trim_back(v@.subrange(i as int, j as int)),
        decreases j - i,
    {
        assert(v@.subrange(i as int, j as int).drop_last() == v@.subrange(i as int, j - 1));
        j -= 1;
    }
    text_of(&v, i, j)
}

/// The pieces one behind the other with `sep` between each two.
pub fn join(parts: &Vec<String>, sep: &str) -> (r: String)
    ensures
        r@ == joined(texts(parts@), sep@),
{
    let mut out = String::new();
    let mut i: usize = 0;
    while i < parts.len()
        invariant
            i <= parts.len(),
            out@ == joined(texts(parts@).take(i as int), sep@),
        decreases parts.len() - i,
    {
        let ghost head = texts(parts@).take(i + 1);
        proof {
            assert(head.drop_last() == texts(parts@).take(i as int));
            assert(head.last() == parts@[i as int]@);
        }
        if i > 0 {
            out.append(sep);
        }
        out.append(parts[i].as_str());
        i += 1;
    }
    assert(texts(parts@).take(i as int) == texts(parts@));
    out
}

/// The digit `d` stands for.
pub fn digit_of(d: u64) -> (r: char)
    requires
        d < 16,
    ensures
        r == digit(d as int),
{
    if d == 0 { '0' } else if d == 1 { '1' } else if d == 2 { '2' } else if d == 3 { '3' }
    else if d == 4 { '4' } else if d == 5 { '5' } else if d == 6 { '6' } else if d == 7 { '7' }
    else if d == 8 { '8' } else if d == 9 { '9' } else if d == 10 { 'a' } else if d == 11 { 'b' }
    else if d == 12 { 'c' } else if d == 13 { 'd' } else if d == 14 { 'e' } else { 'f' }
}

fn push_numeral(out: &mut String, n: u64, base: u64)
    requires
        base == 10 || base == 16,
    ensures
        final(out)@ == old(out)@ + numeral(n as nat, base as nat),
    decreases n,
{
    if n < base {
        out.push(digit_of(n));
    } else {
        push_numeral(out, n / base, base);
        out.push(digit_of(n % base));
    }
}

/// The decimal numeral of `n`.
pub fn decimal(n: u64) -> (r: String)
    ensures
        r@ == numeral(n as nat, 10),
{
    let mut out = String::new();
    push_numeral(&mut out, n, 10);
    out
}

/// The decimal numeral of `n`, with a minus before a negative one.
pub fn signed_decimal(n: i64) -> (r: String)
    ensures
        r@ == int_numeral(n as int),
{
    let mut out = String::new();
    if n < 0 {
        out.push('-');
        let size: u64 = if n == i64::MIN { 0x8000_0000_0000_0000 } else { (-n) as u64 };
        push_numeral(&mut out, size, 10);
    } else {
        push_numeral(&mut out, n as u64, 10);
    }
    out
}

/// The hexadecimal numeral of `n`, in lower case.
pub fn hexadecimal(n: u64) -> (r: String)
    ensures
        r@ == numeral(n as nat, 16),
{
    let mut out = String::new();
    push_numeral(&mut out, n, 16);
    out
}

/// More digits never name a smaller number.
proof fn lemma_digits_grow(s: Seq<char>, k: int)
    requires
        0 <= k <= s.len(),
        all_digits(s),
    ensures
        0 <= digits_value(s.take(k)) <= digits_value(s),
    decreases s.len(),
{
    if k == s.len() {
        assert(s.take(k) == s);
        if s.len() > 0 {
            assert(all_digits(s.drop_last()));
            lemma_digits_grow(s.drop_last(), s.len() - 1);
        }
    } else {
        assert(all_digits(s.drop_last()));
        lemma_digits_grow(s.drop_last(), k);
        assert(s.drop_last().take(k) == s.take(k));
        assert(is_digit(s.last()));
    }
}

/// An unsigned reading is never negative.
pub proof fn lemma_read_unsigned(s: Seq<char>)
    ensures
        match read_unsigned(s) {
            Some(n) => n >= 0,
            None => true,
        },
{
    let body = if s.len() > 0 && s[0] == '+' { s.drop_first() } else { s };
    if all_digits(body) {
        lemma_digits_grow(body, 0);
    }
}

/// The numeral of a number is read back as the number.
pub proof fn law_numeral_is_read_back(n: nat)
    ensures
        read_unsigned(numeral(n, 10)) == Some(n as int),
{
    lemma_numeral_digits(n);
    let s = numeral(n, 10);
    assert(is_digit(s[0]));
}

/// The numeral of a whole number, with its sign, is read back as the number.
pub proof fn law_int_numeral_is_read_back(n: int)
    ensures
        read_signed(int_numeral(n)) == Some(n),
{
    let s = int_numeral(n);
    if n < 0 {
        lemma_numeral_digits((-n) as nat);
        assert(s.drop_first() =~= numeral((-n) as nat, 10));
    } else {
        law_numeral_is_read_back(n as nat);
        lemma_numeral_digits(n as nat);
        assert(is_digit(s[0]));
    }
}

/// A decimal numeral is a run of digits that names its number.
pub proof fn lemma_numeral_digits(n: nat)
    ensures
        numeral(n, 10).len() > 0,
        all_digits(numeral(n, 10)),
        digits_value(numeral(n, 10)) == n,
    decreases n,
{
    let s = numeral(n, 10);
    if n < 10 {
        assert(s.drop_last() =~= Seq::<char>::empty());
        assert(digits_value(s.drop_last()) == 0);
        assert(s.last() == digit(n as int));
    } else {
        lemma_numeral_digits(n / 10);
        assert(s.drop_last() =~= numeral(n / 10, 10));
        assert(s.last() == digit((n % 10) as int));
    }
}

/// The number the characters from `from` on name, where they are digits and
/// no more and the number fits.
fn read_digits(v: &Vec<char>, from: usize) -> (r: Option<u64>)
    requires
        from <= v.len(),
    ensures
        ({
            let body = v@.skip(from as int);
            if body.len() > 0 && all_digits(body) && digits_value(body) <= u64::MAX {
                r == Some(digits_value(body) as u64)
            } else {
                r is None
            }
        }),
{
    let ghost body = v@.skip(from as int);
    if from == v.len() {
        return None;
    }
    let mut acc: u64 = 0;
    let mut i: usize = from;
    while i < v.len()
        invariant
            from <= i <= v.len(),
            body == v@.skip(from as int),
            forall|k: int| from <= k < i ==> is_digit(#[trigger] v@[k]),
            acc == digits_value(body.take(i - from)),
        decreases v.len() - i,
    {
        let c = v[i];
        let ghost k = i - from;
        proof {
            assert(body.take(k + 1).drop_last() == body.take(k));
            assert(body[k] == c);
            assert(body.take(k + 1).last() == c);
        }
        if c < '0' || c > '9' {
            proof {
                assert(!is_digit(body[k]));
            }
            return None;
        }
        let d: u64 = (c as u32 - '0' as u32) as u64;
        if acc > (u64::MAX - d) / 10 {
            proof {
                if all_digits(body) {
                    lemma_digits_grow(body, k + 1);
                }
            }
            return None;
        }
        acc = acc * 10 + d;
        i += 1;
    }
    proof {
        assert(body.take(i - from) == body);
        assert forall|k: int| 0 <= k < body.len() implies is_digit(#[trigger] body[k]) by {
            assert(body[k] == v@[from + k]);
        }
    }
    Some(acc)
}

/// The number a text names, where it fits a `u64`.
pub fn parse_u64(s: &str) -> (r: Option<u64>)
    ensures
        match read_unsigned(s@) {
            Some(n) => if n <= u64::MAX { r == Some(n as u64) } else { r is None },
            None => r is None,
        },
{
    let v = letters(s);
    if v.len() > 0 && v[0] == '+' {
        assert(v@.drop_first() == v@.skip(1));
        read_digits(&v, 1)
    } else {
        assert(v@ == v@.skip(0));
        read_digits(&v, 0)
    }
}

/// The number a text names, where it fits an `i64`.
pub fn parse_i64(s: &str) -> (r: Option<i64>)
    ensures
        match read_signed(s@) {
            Some(n) => if i64::MIN <= n <= i64::MAX { r == Some(n as i64) } else { r is None },
            None => r is None,
        },
{
    let v = letters(s);
    if v.len() > 1 && v[0] == '-' {
        proof {
            assert(v@.drop_first() == v@.skip(1));
            if all_digits(v@.skip(1)) {
                lemma_digits_grow(v@.skip(1), 0);
            }
        }
        match read_digits(&v, 1) {
            Some(n) => if n <= 0x7fff_ffff_ffff_ffff {
                Some(-(n as i64))
            } else if n == 0x8000_0000_0000_0000 {
                Some(i64::MIN)
            } else {
                None
            },
            None => None,
        }
    } else {
        proof {
            lemma_read_unsigned(s@);
        }
        match parse_u64(s) {
            Some(n) => if n <= 0x7fff_ffff_ffff_ffff {
                Some(n as i64)
            } else {
                None
            },
            None => None,
        }
    }
}

} // verus!
