//! Text primitives over `str` and `String`, specified on their character sequences.
use vstd::prelude::*;
use vstd::string::*;

verus! {

/// `String::push` appends the given character to the end of the string.
pub assume_specification[ String::push ](s: &mut String, ch: char)
    ensures
        final(s)@ == old(s)@.push(ch),
;

/// The contents of a list of strings.
pub open spec fn contents(list: Seq<String>) -> Seq<Seq<char>> {
    list.map_values(|s: String| s@)
}

/// The contents of a list of string slices.
pub open spec fn str_contents(list: Seq<&str>) -> Seq<Seq<char>> {
    list.map_values(|s: &str| s@)
}

/// The contents of an optional string.
pub open spec fn opt_text(text: Option<String>) -> Option<Seq<char>> {
    match text {
        Some(t) => Some(t@),
        None => None,
    }
}

/// The contents of an optional string slice.
pub open spec fn opt_str(text: Option<&str>) -> Option<Seq<char>> {
    match text {
        Some(t) => Some(t@),
        None => None,
    }
}

/// Strict lexicographic order by code point, which is also the byte order of UTF-8 text.
pub open spec fn lex_lt(a: Seq<char>, b: Seq<char>) -> bool
    decreases a.len(),
{
    if b.len() == 0 {
        false
    } else if a.len() == 0 {
        true
    } else if a[0] != b[0] {
        a[0] < b[0]
    } else {
        lex_lt(a.drop_first(), b.drop_first())
    }
}

/// The decimal digit character of a number below ten.
pub open spec fn digit_char(d: nat) -> char {
    ('0' as nat + d) as char
}

pub open spec fn is_digit(c: char) -> bool {
    '0' <= c <= '9'
}

pub open spec fn all_digits(s: Seq<char>) -> bool {
    forall|i: int| 0 <= i < s.len() ==> is_digit(#[trigger] s[i])
}

/// The number without leading zeros in base ten.
pub open spec fn decimal(n: nat) -> Seq<char>
    decreases n,
{
    if n < 10 {
        seq![digit_char(n)]
    } else {
        decimal(n / 10).push(digit_char(n % 10))
    }
}

/// The value of a run of decimal digits, most significant first.
pub open spec fn digits_value(s: Seq<char>) -> nat
    decreases s.len(),
{
    if s.len() == 0 {
        0
    } else {
        (digits_value(s.drop_last()) * 10 + (s.last() as nat - '0' as nat)) as nat
    }
}

/// A 64-bit unsigned number in base ten: an optional `+`, then at least one digit and nothing
/// else, with a value that fits.
pub open spec fn parsed_u64(s: Seq<char>) -> Option<u64> {
    let digits = if s.len() > 0 && s[0] == '+' {
        s.skip(1)
    } else {
        s
    };
    if digits.len() > 0 && all_digits(digits) && digits_value(digits) <= u64::MAX {
        Some(digits_value(digits) as u64)
    } else {
        None
    }
}

/// The position of the first occurrence of a character, or the length where there is none.
pub open spec fn first_index(s: Seq<char>, c: char) -> nat
    decreases s.len(),
{
    if s.len() == 0 || s[0] == c {
        0
    } else {
        1 + first_index(s.drop_first(), c)
    }
}

/// The text before and after the first occurrence of a separator character.
pub open spec fn split_once(s: Seq<char>, sep: char) -> Option<(Seq<char>, Seq<char>)> {
    let at = first_index(s, sep) as int;
    if at < s.len() {
        Some((s.take(at), s.skip(at + 1)))
    } else {
        None
    }
}

/// The pieces with the separator between each two neighbours.
pub open spec fn join(pieces: Seq<Seq<char>>, sep: Seq<char>) -> Seq<char>
    decreases pieces.len(),
{
    if pieces.len() == 0 {
        seq![]
    } else if pieces.len() == 1 {
        pieces[0]
    } else {
        join(pieces.drop_last(), sep) + sep + pieces.last()
    }
}

/// The pieces between the occurrences of a separator character: always one more than there are
/// occurrences.
pub open spec fn split(s: Seq<char>, sep: char) -> Seq<Seq<char>>
    decreases s.len(),
{
    if s.len() == 0 {
        seq![seq![]]
    } else if s.last() == sep {
        split(s.drop_last(), sep).push(seq![])
    } else {
        let init = split(s.drop_last(), sep);
        init.update(init.len() - 1, init.last().push(s.last()))
    }
}

/// The text without the leading occurrences of a character.
pub open spec fn trim_start(s: Seq<char>, c: char) -> Seq<char>
    decreases s.len(),
{
    if s.len() > 0 && s[0] == c {
        trim_start(s.drop_first(), c)
    } else {
        s
    }
}

/// The text without the trailing occurrences of a character.
pub open spec fn trim_end(s: Seq<char>, c: char) -> Seq<char>
    decreases s.len(),
{
    if s.len() > 0 && s.last() == c {
        trim_end(s.drop_last(), c)
    } else {
        s
    }
}

/// The text without its ending, or the text itself where it does not end so.
pub open spec fn without_suffix(s: Seq<char>, suffix: Seq<char>) -> Seq<char> {
    if suffix.is_suffix_of(s) {
        s.take(s.len() - suffix.len())
    } else {
        s
    }
}

/// The text without the occurrences of a character at either end.
pub open spec fn trim_matches(s: Seq<char>, c: char) -> Seq<char> {
    trim_end(trim_start(s, c), c)
}

pub open spec fn is_blank(c: char) -> bool {
    c == ' ' || c == '\t' || c == '\n' || c == '\r'
}

/// The text with one space in the place of each run of blanks.
pub open spec fn compact(s: Seq<char>) -> Seq<char>
    decreases s.len(),
{
    if s.len() == 0 {
        seq![]
    } else if !is_blank(s.last()) {
        compact(s.drop_last()).push(s.last())
    } else if s.len() > 1 && is_blank(s[s.len() - 2]) {
        compact(s.drop_last())
    } else {
        compact(s.drop_last()).push(' ')
    }
}

/// Whether two strings hold the same characters.
pub fn str_eq(a: &str, b: &str) -> (r: bool)
    ensures
        r == (a@ == b@),
{
    let mut x = a.chars();
    let mut y = b.chars();
    let ghost mut n: int = 0;
    loop
        invariant
            0 <= n <= a@.len(),
            n <= b@.len(),
            vstd::std_specs::iter::IteratorSpec::remaining(&x) == a@.skip(n),
            vstd::std_specs::iter::IteratorSpec::remaining(&y) == b@.skip(n),
            a@.take(n) == b@.take(n),
        decreases a@.len() - n,
    {
        match (x.next(), y.next()) {
            (Some(c), Some(d)) => {
                if c != d {
                    assert(a@[n] != b@[n]);
                    return false;
                }
                proof {
                    assert(a@.take(n + 1) =~= a@.take(n).push(c));
                    assert(b@.take(n + 1) =~= b@.take(n).push(d));
                    n = n + 1;
                }
            },
            (None, None) => {
                assert(a@.take(n) =~= a@);
                assert(b@.take(n) =~= b@);
                return true;
            },
            _ => {
                return false;
            },
        }
    }
}

/// Whether a string begins with a prefix.
pub fn starts_with(s: &str, prefix: &str) -> (r: bool)
    ensures
        r == prefix@.is_prefix_of(s@),
{
    let mut x = s.chars();
    let mut y = prefix.chars();
    let ghost mut n: int = 0;
    loop
        invariant
            0 <= n <= s@.len(),
            n <= prefix@.len(),
            vstd::std_specs::iter::IteratorSpec::remaining(&x) == s@.skip(n),
            vstd::std_specs::iter::IteratorSpec::remaining(&y) == prefix@.skip(n),
            s@.take(n) == prefix@.take(n),
        decreases prefix@.len() - n,
    {
        match (x.next(), y.next()) {
            (Some(c), Some(d)) => {
                if c != d {
                    assert(s@[n] != prefix@[n]);
                    return false;
                }
                proof {
                    assert(s@.take(n + 1) =~= s@.take(n).push(c));
                    assert(prefix@.take(n + 1) =~= prefix@.take(n).push(d));
                    n = n + 1;
                }
            },
            (_, None) => {
                assert(prefix@.take(n) =~= prefix@);
                return true;
            },
            (None, Some(_)) => {
                return false;
            },
        }
    }
}

/// Whether `a` comes strictly before `b` in code point order.
pub fn str_lt(a: &str, b: &str) -> (r: bool)
    ensures
        r == lex_lt(a@, b@),
{
    let mut x = a.chars();
    let mut y = b.chars();
    let ghost mut n: int = 0;
    assert(a@.skip(0) =~= a@);
    assert(b@.skip(0) =~= b@);
    loop
        invariant
            0 <= n <= a@.len(),
            n <= b@.len(),
            vstd::std_specs::iter::IteratorSpec::remaining(&x) == a@.skip(n),
            vstd::std_specs::iter::IteratorSpec::remaining(&y) == b@.skip(n),
            lex_lt(a@, b@) == lex_lt(a@.skip(n), b@.skip(n)),
        decreases a@.len() - n,
    {
        match (x.next(), y.next()) {
            (Some(c), Some(d)) => {
                if c != d {
                    return c < d;
                }
                proof {
                    assert(a@.skip(n).drop_first() =~= a@.skip(n + 1));
                    assert(b@.skip(n).drop_first() =~= b@.skip(n + 1));
                    n = n + 1;
                }
            },
            (None, Some(_)) => {
                return true;
            },
            (_, None) => {
                return false;
            },
        }
    }
}

/// The characters of a string.
pub fn chars_of(s: &str) -> (r: Vec<char>)
    ensures
        r@ == s@,
{
    let mut out: Vec<char> = Vec::new();
    for c in it: s.chars()
        invariant
            it.seq() == s@,
            out@ == s@.take(it.index() as int),
    {
        out.push(c);
    }
    out
}

/// The string of the characters from one position up to another.
pub fn string_of(chars: &Vec<char>, from: usize, to: usize) -> (r: String)
    requires
        from <= to <= chars@.len(),
    ensures
        r@ == chars@.subrange(from as int, to as int),
{
    let mut out = String::new();
    let mut i: usize = from;
    while i < to
        invariant
            from <= i <= to <= chars@.len(),
            out@ == chars@.subrange(from as int, i as int),
        decreases to - i,
    {
        out.push(chars[i]);
        i = i + 1;
        assert(chars@.subrange(from as int, i as int) =~= chars@.subrange(
            from as int,
            i - 1,
        ).push(chars@[i - 1]));
    }
    out
}

/// The pieces with the separator between each two neighbours.
pub fn join_strs(pieces: &Vec<&str>, sep: &str) -> (r: String)
    ensures
        r@ == join(str_contents(pieces@), sep@),
{
    let ghost all = str_contents(pieces@);
    let mut out = String::new();
    let mut i: usize = 0;
    while i < pieces.len()
        invariant
            i <= pieces@.len(),
            all == str_contents(pieces@),
            out@ == join(all.take(i as int), sep@),
        decreases pieces@.len() - i,
    {
        if i > 0 {
            out.append(sep);
        }
        out.append(pieces[i]);
        assert(all.take(i + 1).drop_last() =~= all.take(i as int));
        i = i + 1;
        assert(out@ =~= join(all.take(i as int), sep@));
    }
    assert(all.take(i as int) =~= all);
    out
}

/// The strings with the separator between each two neighbours.
pub fn join_strings(pieces: &Vec<String>, sep: &str) -> (r: String)
    ensures
        r@ == join(contents(pieces@), sep@),
{
    let mut slices: Vec<&str> = Vec::new();
    let mut i: usize = 0;
    while i < pieces.len()
        invariant
            i <= pieces@.len(),
            slices@.len() == i,
            forall|k: int| 0 <= k < i ==> (#[trigger] slices@[k])@ == pieces@[k]@,
        decreases pieces@.len() - i,
    {
        slices.push(pieces[i].as_str());
        i = i + 1;
    }
    assert(str_contents(slices@) =~= contents(pieces@));
    join_strs(&slices, sep)
}

/// The position of the first occurrence of a character, or the length where there is none.
pub fn find_char(chars: &Vec<char>, c: char) -> (r: usize)
    ensures
        r == first_index(chars@, c),
        r <= chars@.len(),
{
    let mut i: usize = 0;
    assert(chars@.skip(0) =~= chars@);
    while i < chars.len() && chars[i] != c
        invariant
            i <= chars@.len(),
            first_index(chars@, c) == i + first_index(chars@.skip(i as int), c),
        decreases chars@.len() - i,
    {
        assert(chars@.skip(i as int).drop_first() =~= chars@.skip(i + 1));
        i = i + 1;
    }
    i
}

/// The text without the occurrences of a character at either end.
pub fn trimmed(s: &str, c: char) -> (r: String)
    ensures
        r@ == trim_matches(s@, c),
{
    let chars = chars_of(s);
    let mut from: usize = 0;
    assert(s@.skip(0) =~= s@);
    while from < chars.len() && chars[from] == c
        invariant
            chars@ == s@,
            from <= chars@.len(),
            trim_start(s@, c) == trim_start(s@.skip(from as int), c),
        decreases chars@.len() - from,
    {
        assert(s@.skip(from as int).drop_first() =~= s@.skip(from + 1));
        from = from + 1;
    }
    let ghost rest = s@.skip(from as int);
    assert(trim_start(s@, c) == rest);
    let mut to: usize = chars.len();
    assert(rest.take(rest.len() as int) =~= rest);
    while to > from && chars[to - 1] == c
        invariant
            chars@ == s@,
            from <= to <= chars@.len(),
            rest == s@.skip(from as int),
            trim_end(rest, c) == trim_end(rest.take(to - from), c),
        decreases to - from,
    {
        assert(rest.take(to - from).drop_last() =~= rest.take(to - 1 - from));
        assert(rest.take(to - from).last() == chars@[to - 1]);
        to = to - 1;
    }
    assert(to > from ==> rest.take(to - from).last() == chars@[to - 1]);
    assert(trim_end(rest, c) == rest.take(to - from));
    let out = string_of(&chars, from, to);
    assert(out@ =~= rest.take(to - from));
    out
}

/// The text without its ending, or the text itself where it does not end so.
pub fn strip_suffix(s: &str, suffix: &str) -> (r: String)
    ensures
        r@ == without_suffix(s@, suffix@),
{
    let chars = chars_of(s);
    let tail = chars_of(suffix);
    if tail.len() > chars.len() {
        return s.to_owned();
    }
    let keep = chars.len() - tail.len();
    let mut i: usize = 0;
    while i < tail.len()
        invariant
            chars@ == s@,
            tail@ == suffix@,
            keep + tail@.len() == chars@.len() <= usize::MAX,
            i <= tail@.len(),
            forall|k: int| 0 <= k < i ==> #[trigger] tail@[k] == chars@[keep + k],
        decreases tail@.len() - i,
    {
        if tail[i] != chars[keep + i] {
            assert(s@.subrange(keep as int, s@.len() as int)[i as int] == chars@[keep + i]);
            return s.to_owned();
        }
        i = i + 1;
    }
    assert(suffix@ =~= s@.subrange(keep as int, s@.len() as int));
    let out = string_of(&chars, 0, keep);
    assert(out@ =~= s@.take(keep as int));
    out
}

proof fn lemma_split_not_empty(s: Seq<char>, sep: char)
    ensures
        split(s, sep).len() > 0,
    decreases s.len(),
{
    if s.len() > 0 {
        lemma_split_not_empty(s.drop_last(), sep);
    }
}

/// The pieces between the occurrences of a separator character.
pub fn split_at_char(s: &str, sep: char) -> (r: Vec<String>)
    ensures
        contents(r@) == split(s@, sep),
{
    let mut out: Vec<String> = Vec::new();
    let mut piece = String::new();
    let ghost mut seen: Seq<char> = seq![];
    assert(contents(out@).push(piece@) =~= split(seen, sep));
    for c in it: s.chars()
        invariant
            it.seq() == s@,
            seen == s@.take(it.index() as int),
            contents(out@).push(piece@) == split(seen, sep),
    {
        let ghost before = split(seen, sep);
        let ghost longer = seen.push(c);
        assert(longer.drop_last() =~= seen);
        if c == sep {
            out.push(piece);
            piece = String::new();
            assert(contents(out@).push(piece@) =~= before.push(seq![]));
        } else {
            let ghost head = contents(out@);
            let ghost old_piece = piece@;
            piece.push(c);
            assert(before == head.push(old_piece));
            assert(head.push(piece@) =~= before.update(before.len() - 1, before.last().push(c)));
        }
        proof {
            seen = longer;
        }
    }
    assert(seen =~= s@);
    out.push(piece);
    assert(contents(out@) =~= split(s@, sep));
    out
}

/// The text with one space in the place of each run of blanks.
pub fn compact_ws(s: &str) -> (r: String)
    ensures
        r@ == compact(s@),
{
    let mut out = String::new();
    let mut after_blank = false;
    let ghost mut seen: Seq<char> = seq![];
    for c in it: s.chars()
        invariant
            it.seq() == s@,
            seen == s@.take(it.index() as int),
            out@ == compact(seen),
            after_blank == (seen.len() > 0 && is_blank(seen.last())),
    {
        let ghost longer = seen.push(c);
        assert(longer.drop_last() =~= seen);
        let blank = c == ' ' || c == '\t' || c == '\n' || c == '\r';
        if !blank {
            out.push(c);
        } else if !after_blank {
            out.push(' ');
        }
        after_blank = blank;
        proof {
            seen = longer;
        }
    }
    assert(seen =~= s@);
    out
}

/// The decimal digits of a number.
pub fn decimal_string(n: u64) -> (r: String)
    ensures
        r@ == decimal(n as nat),
    decreases n,
{
    if n < 10 {
        let mut s = String::new();
        s.push((48u8 + n as u8) as char);
        s
    } else {
        let mut s = decimal_string(n / 10);
        s.push((48u8 + (n % 10) as u8) as char);
        s
    }
}

proof fn lemma_digits_value_grows(s: Seq<char>, n: int)
    requires
        0 <= n <= s.len(),
        all_digits(s),
    ensures
        digits_value(s.take(n)) <= digits_value(s),
    decreases s.len(),
{
    if n < s.len() {
        let init = s.drop_last();
        assert(all_digits(init)) by {
            assert forall|i: int| 0 <= i < init.len() implies is_digit(#[trigger] init[i]) by {
                assert(init[i] == s[i]);
            }
        }
        lemma_digits_value_grows(init, n);
        assert(init.take(n) =~= s.take(n));
        assert(is_digit(s[s.len() - 1]));
    } else {
        assert(s.take(n) =~= s);
    }
}

/// The number that the characters before position `to` spell, if they spell one.
pub fn parse_u64(chars: &Vec<char>, to: usize) -> (r: Option<u64>)
    requires
        to <= chars@.len(),
    ensures
        r == parsed_u64(chars@.take(to as int)),
{
    let ghost s = chars@.take(to as int);
    let from: usize = if to > 0 && chars[0] == '+' {
        1
    } else {
        0
    };
    let ghost digits = s.skip(from as int);
    proof {
        assert(s.skip(0) =~= s);
    }
    if from == to {
        return None;
    }
    let mut value: u64 = 0;
    let mut i: usize = from;
    assert(digits.take(0) =~= seq![]);
    while i < to
        invariant
            from <= i <= to <= chars@.len(),
            from < to,
            s == chars@.take(to as int),
            digits == s.skip(from as int),
            parsed_u64(s) == if all_digits(digits) && digits_value(digits) <= u64::MAX {
                Some(digits_value(digits) as u64)
            } else {
                None::<u64>
            },
            all_digits(digits.take(i - from)),
            value == digits_value(digits.take(i - from)),
        decreases to - i,
    {
        let c = chars[i];
        assert(digits[i - from] == c);
        if c < '0' || c > '9' {
            assert(!is_digit(digits[i - from]));
            return None;
        }
        let d: u64 = (c as u32 - '0' as u32) as u64;
        let ghost longer = digits.take(i + 1 - from);
        proof {
            assert(longer.drop_last() =~= digits.take(i - from));
            assert forall|k: int| 0 <= k < longer.len() implies is_digit(#[trigger] longer[k]) by {
                if k < i - from {
                    assert(longer[k] == digits.take(i - from)[k]);
                }
            }
            assert(digits_value(longer) == value * 10 + d);
            if all_digits(digits) {
                lemma_digits_value_grows(digits, i + 1 - from);
            }
        }
        if value > (u64::MAX - d) / 10 {
            assert(value * 10 + d > u64::MAX);
            return None;
        }
        value = value * 10 + d;
        i = i + 1;
    }
    assert(digits.take(i - from) =~= digits);
    Some(value)
}

/// The decimal form of a number is digits only, and at least one.
pub proof fn decimal_has_only_digits(n: nat)
    ensures
        decimal(n).len() > 0,
        all_digits(decimal(n)),
        digits_value(decimal(n)) == n,
    decreases n,
{
    if n < 10 {
        assert(decimal(n).drop_last() =~= seq![]);
        assert(digits_value(decimal(n).drop_last()) == 0);
    } else {
        decimal_has_only_digits(n / 10);
        assert(decimal(n).drop_last() =~= decimal(n / 10));
    }
}

/// Reading a number back from its decimal digits gives the number.
pub proof fn parse_of_decimal(n: u64)
    ensures
        parsed_u64(decimal(n as nat)) == Some(n),
{
    decimal_has_only_digits(n as nat);
    let s = decimal(n as nat);
    assert(is_digit(s[0]));
}

/// The first occurrence of a character that is put behind a text without it is right there.
pub proof fn first_index_after(before: Seq<char>, c: char, after: Seq<char>)
    requires
        !before.contains(c),
    ensures
        first_index(before + seq![c] + after, c) == before.len(),
    decreases before.len(),
{
    let whole = before + seq![c] + after;
    if before.len() > 0 {
        assert(before.contains(before[0]));
        assert(!before.drop_first().contains(c)) by {
            if before.drop_first().contains(c) {
                let i = choose|i: int|
                    0 <= i < before.drop_first().len() && before.drop_first()[i] == c;
                assert(before[i + 1] == c);
            }
        }
        first_index_after(before.drop_first(), c, after);
        assert(whole.drop_first() =~= before.drop_first() + seq![c] + after);
    }
}

/// Nothing comes before itself.
pub proof fn lex_lt_is_irreflexive(a: Seq<char>)
    ensures
        !lex_lt(a, a),
    decreases a.len(),
{
    if a.len() > 0 {
        lex_lt_is_irreflexive(a.drop_first());
    }
}

/// Of two texts at most one comes before the other.
pub proof fn lex_lt_is_asymmetric(a: Seq<char>, b: Seq<char>)
    ensures
        !(lex_lt(a, b) && lex_lt(b, a)),
    decreases a.len(),
{
    if a.len() > 0 && b.len() > 0 && a[0] == b[0] {
        lex_lt_is_asymmetric(a.drop_first(), b.drop_first());
    }
}

/// Joining the pieces of a text with the separator that it was split at gives the text back.
pub proof fn join_undoes_split(s: Seq<char>, sep: char)
    ensures
        join(split(s, sep), seq![sep]) == s,
    decreases s.len(),
{
    if s.len() > 0 {
        let init = split(s.drop_last(), sep);
        lemma_split_not_empty(s.drop_last(), sep);
        join_undoes_split(s.drop_last(), sep);
        assert(s =~= s.drop_last().push(s.last()));
        if s.last() == sep {
            assert(split(s, sep).drop_last() =~= init);
            assert(join(split(s, sep), seq![sep]) =~= s);
        } else {
            assert(split(s, sep).drop_last() =~= init.drop_last());
            assert(join(split(s, sep), seq![sep]) =~= s);
        }
    }
}

/// No piece of a split text holds the separator.
pub proof fn pieces_hold_no_separator(s: Seq<char>, sep: char, i: int)
    requires
        0 <= i < split(s, sep).len(),
    ensures
        !split(s, sep)[i].contains(sep),
    decreases s.len(),
{
    if s.len() > 0 {
        let init = split(s.drop_last(), sep);
        lemma_split_not_empty(s.drop_last(), sep);
        if i < init.len() {
            pieces_hold_no_separator(s.drop_last(), sep, i);
            if s.last() != sep && i == init.len() - 1 {
                let piece = split(s, sep)[i];
                if piece.contains(sep) {
                    let k = choose|k: int| 0 <= k < piece.len() && piece[k] == sep;
                    assert(init.last()[k] == sep);
                }
            }
        }
    }
}

/// One text comes before another exactly where, after a common beginning, it ends or goes on with
/// the smaller character.
pub proof fn order_is_by_the_first_difference(a: Seq<char>, b: Seq<char>)
    ensures
        lex_lt(a, b) <==> exists|n: int|
            0 <= n <= a.len() && n < b.len() && #[trigger] a.take(n) == b.take(n) && (n == a.len()
                || a[n] < b[n]),
    decreases a.len(),
{
    if lex_lt(a, b) {
        if a.len() == 0 || a[0] != b[0] {
            assert(a.take(0) =~= b.take(0));
        } else {
            let (x, y) = (a.drop_first(), b.drop_first());
            order_is_by_the_first_difference(x, y);
            let n = choose|n: int|
                0 <= n <= x.len() && n < y.len() && #[trigger] x.take(n) == y.take(n) && (n
                    == x.len() || x[n] < y[n]);
            assert(a.take(n + 1) =~= seq![a[0]] + x.take(n));
            assert(b.take(n + 1) =~= seq![b[0]] + y.take(n));
        }
    }
    if exists|n: int|
        0 <= n <= a.len() && n < b.len() && #[trigger] a.take(n) == b.take(n) && (n == a.len()
            || a[n] < b[n]) {
        let n = choose|n: int|
            0 <= n <= a.len() && n < b.len() && #[trigger] a.take(n) == b.take(n) && (n == a.len()
                || a[n] < b[n]);
        if n > 0 {
            let (x, y) = (a.drop_first(), b.drop_first());
            assert(a.take(n)[0] == b.take(n)[0]);
            assert(x.take(n - 1) =~= a.take(n).drop_first());
            assert(y.take(n - 1) =~= b.take(n).drop_first());
            order_is_by_the_first_difference(x, y);
        }
    }
}

/// A number is written with the digit of its units last, behind the digits of its tens; one below
/// ten is its digit alone.
pub proof fn numbers_are_written_in_base_ten(n: nat, d: nat)
    requires
        d < 10,
    ensures
        decimal(d) == seq![(48 + d) as char],
        n > 0 ==> decimal(n * 10 + d) == decimal(n).push((48 + d) as char),
{
    assert((n * 10 + d) / 10 == n);
    assert((n * 10 + d) % 10 == d);
}

/// One more digit multiplies what stands before it by ten.
pub proof fn digits_are_read_in_base_ten(s: Seq<char>, c: char)
    requires
        '0' <= c <= '9',
    ensures
        digits_value(Seq::<char>::empty()) == 0,
        digits_value(s.push(c)) == digits_value(s) * 10 + (c as u32 - 48),
{
    assert(s.push(c).drop_last() =~= s);
}

/// A text spells a number exactly where it is digits, and at least one, behind at most one plus
/// sign, and the number of the digits fits.
pub proof fn numbers_are_digits_behind_a_plus(s: Seq<char>, n: u64)
    ensures
        parsed_u64(s) == Some(n) <==> exists|digits: Seq<char>|
            {
                &&& s == digits || s == seq!['+'] + digits
                &&& digits.len() > 0
                &&& forall|i: int| 0 <= i < digits.len() ==> '0' <= #[trigger] digits[i] <= '9'
                &&& #[trigger] digits_value(digits) == n
            },
{
    if parsed_u64(s) == Some(n) {
        if s.len() > 0 && s[0] == '+' {
            assert(s =~= seq!['+'] + s.skip(1));
            assert(all_digits(s.skip(1)));
            assert(digits_value(s.skip(1)) == n);
        } else {
            assert(all_digits(s));
            assert(digits_value(s) == n);
        }
    }
    if exists|digits: Seq<char>|
        {
            &&& s == digits || s == seq!['+'] + digits
            &&& digits.len() > 0
            &&& forall|i: int| 0 <= i < digits.len() ==> '0' <= #[trigger] digits[i] <= '9'
            &&& #[trigger] digits_value(digits) == n
        } {
        let digits = choose|digits: Seq<char>|
            {
                &&& s == digits || s == seq!['+'] + digits
                &&& digits.len() > 0
                &&& forall|i: int| 0 <= i < digits.len() ==> '0' <= #[trigger] digits[i] <= '9'
                &&& #[trigger] digits_value(digits) == n
            };
        assert('0' <= digits[0] <= '9');
        assert(all_digits(digits));
        if s != digits {
            assert(s.skip(1) =~= digits);
        }
    }
}

proof fn lemma_first_index(s: Seq<char>, c: char)
    ensures
        first_index(s, c) <= s.len(),
        first_index(s, c) < s.len() ==> s[first_index(s, c) as int] == c,
        !s.take(first_index(s, c) as int).contains(c),
    decreases s.len(),
{
    if s.len() > 0 && s[0] != c {
        let rest = s.drop_first();
        lemma_first_index(rest, c);
        let n = first_index(s, c) as int;
        assert forall|i: int| 0 <= i < n implies s.take(n)[i] != c by {
            if i > 0 {
                assert(rest.take(n - 1).contains(rest.take(n - 1)[i - 1]));
            }
        }
    }
}

/// A text is split once at the first separator: the two parts and the separator between them are
/// the text, and the first part holds none. Only a text without the separator is not split.
pub proof fn split_once_is_at_the_first(s: Seq<char>, sep: char)
    ensures
        split_once(s, sep) is None <==> !s.contains(sep),
        forall|before: Seq<char>, after: Seq<char>|
            split_once(s, sep) == Some((before, after)) <==> !before.contains(sep) && s
                == #[trigger] (before + seq![sep] + after),
{
    lemma_first_index(s, sep);
    let at = first_index(s, sep) as int;
    if at < s.len() {
        assert(s[at] == sep);
    } else {
        assert(s.take(at) =~= s);
    }
    assert forall|before: Seq<char>, after: Seq<char>|
        split_once(s, sep) == Some((before, after)) <==> !before.contains(sep) && s
            == #[trigger] (before + seq![sep] + after) by {
        if split_once(s, sep) == Some((before, after)) {
            assert(s =~= before + seq![sep] + after);
        }
        if !before.contains(sep) && s == before + seq![sep] + after {
            first_index_after(before, sep, after);
            assert(s.take(at) =~= before);
            assert(s.skip(at + 1) =~= after);
        }
    }
}

/// Pieces are joined end to end: nothing gives nothing, a piece alone stays as it is, and between
/// the pieces of two groups stands the separator.
pub proof fn joining_puts_the_separator_between(
    first: Seq<Seq<char>>,
    rest: Seq<Seq<char>>,
    sep: Seq<char>,
)
    ensures
        join(Seq::<Seq<char>>::empty(), sep) == Seq::<char>::empty(),
        first.len() == 1 ==> join(first, sep) == first[0],
        first.len() > 0 && rest.len() > 0 ==> join(first + rest, sep) == join(first, sep) + sep
            + join(rest, sep),
    decreases rest.len(),
{
    if first.len() > 0 && rest.len() > 0 {
        let whole = first + rest;
        if rest.len() == 1 {
            assert(whole.drop_last() =~= first);
        } else {
            joining_puts_the_separator_between(first, rest.drop_last(), sep);
            assert(whole.drop_last() =~= first + rest.drop_last());
            assert(join(whole, sep) =~= join(first, sep) + sep + join(rest, sep));
        }
    }
}

/// Splitting gives one piece more than there are separators.
pub proof fn splitting_gives_one_piece_more(s: Seq<char>, sep: char)
    ensures
        split(Seq::<char>::empty(), sep).len() == 1,
        split(s.push(sep), sep).len() == split(s, sep).len() + 1,
        forall|c: char| c != sep ==> #[trigger] split(s.push(c), sep).len() == split(s, sep).len(),
{
    lemma_split_not_empty(s, sep);
    assert(s.push(sep).drop_last() =~= s);
    assert forall|c: char| c != sep implies #[trigger] split(s.push(c), sep).len() == split(
        s,
        sep,
    ).len() by {
        assert(s.push(c).drop_last() =~= s);
    }
}

proof fn lemma_trim_start(s: Seq<char>, c: char) -> (n: int)
    ensures
        0 <= n <= s.len(),
        trim_start(s, c) == s.skip(n),
        forall|i: int| 0 <= i < n ==> #[trigger] s[i] == c,
        n < s.len() ==> s[n] != c,
    decreases s.len(),
{
    if s.len() > 0 && s[0] == c {
        let rest = s.drop_first();
        let n = lemma_trim_start(rest, c);
        assert(rest.skip(n) =~= s.skip(n + 1));
        assert forall|i: int| 0 <= i < n + 1 implies #[trigger] s[i] == c by {
            if i > 0 {
                assert(rest[i - 1] == s[i]);
            }
        }
        n + 1
    } else {
        assert(s.skip(0) =~= s);
        0
    }
}

proof fn lemma_trim_end(s: Seq<char>, c: char) -> (n: int)
    ensures
        0 <= n <= s.len(),
        trim_end(s, c) == s.take(n),
        forall|i: int| n <= i < s.len() ==> #[trigger] s[i] == c,
        n > 0 ==> s[n - 1] != c,
    decreases s.len(),
{
    if s.len() > 0 && s.last() == c {
        let init = s.drop_last();
        let n = lemma_trim_end(init, c);
        assert(init.take(n) =~= s.take(n));
        assert forall|i: int| n <= i < s.len() implies #[trigger] s[i] == c by {
            if i < init.len() {
                assert(init[i] == s[i]);
            }
        }
        n
    } else {
        assert(s.take(s.len() as int) =~= s);
        s.len() as int
    }
}

/// Trimming takes away from the two ends all of a character and nothing else.
pub proof fn trimming_takes_only_the_ends(s: Seq<char>, c: char)
    ensures
        exists|from: int, to: int|
            {
                &&& 0 <= from <= to <= s.len()
                &&& trim_matches(s, c) == #[trigger] s.subrange(from, to)
                &&& forall|i: int| 0 <= i < from || to <= i < s.len() ==> #[trigger] s[i] == c
            },
        trim_matches(s, c).len() > 0 ==> trim_matches(s, c)[0] != c && trim_matches(s, c).last()
            != c,
{
    let from = lemma_trim_start(s, c);
    let rest = s.skip(from);
    let n = lemma_trim_end(rest, c);
    let to = from + n;
    assert(rest.take(n) =~= s.subrange(from, to));
    assert forall|i: int| 0 <= i < from || to <= i < s.len() implies #[trigger] s[i] == c by {
        if i >= to {
            assert(rest[i - from] == s[i]);
        }
    }
}

/// What is left of a text that has an ending is what stands before it, and a text that does not
/// have it is left whole.
pub proof fn an_ending_is_taken_off_once(s: Seq<char>, suffix: Seq<char>)
    ensures
        without_suffix(s + suffix, suffix) == s,
        (forall|front: Seq<char>| s != #[trigger] (front + suffix)) ==> without_suffix(s, suffix)
            == s,
{
    assert(suffix =~= (s + suffix).subrange(s.len() as int, (s + suffix).len() as int));
    assert((s + suffix).take(s.len() as int) =~= s);
    if suffix.is_suffix_of(s) {
        let front = s.take(s.len() - suffix.len());
        assert(s =~= front + suffix);
    }
}

/// Compacting works on each stretch of a text by itself: a run of blanks becomes one space, and
/// what is not blank stays as it is.
pub proof fn compacting_is_by_stretches(first: Seq<char>, rest: Seq<char>)
    ensures
        (forall|i: int|
            0 <= i < first.len() ==> #[trigger] first[i] == ' ' || first[i] == '\t' || first[i]
                == '\n' || first[i] == '\r') && first.len() > 0 ==> compact(first) == seq![' '],
        (forall|i: int|
            0 <= i < first.len() ==> #[trigger] first[i] != ' ' && first[i] != '\t' && first[i]
                != '\n' && first[i] != '\r') ==> compact(first) == first,
        first.len() > 0 && rest.len() > 0 && !(is_blank(first.last()) && is_blank(rest[0]))
            ==> compact(first + rest) == compact(first) + compact(rest),
        forall|c: char| #[trigger]
            is_blank(c) <==> c == ' ' || c == '\t' || c == '\n' || c == '\r',
{
    if first.len() > 0 && forall|i: int|
        0 <= i < first.len() ==> is_blank(#[trigger] first[i]) {
        lemma_compact_blanks(first);
    }
    if forall|i: int| 0 <= i < first.len() ==> !is_blank(#[trigger] first[i]) {
        lemma_compact_words(first);
    }
    if first.len() > 0 && rest.len() > 0 && !(is_blank(first.last()) && is_blank(rest[0])) {
        lemma_compact_parts(first, rest);
    }
}

proof fn lemma_compact_blanks(s: Seq<char>)
    requires
        s.len() > 0,
        forall|i: int| 0 <= i < s.len() ==> is_blank(#[trigger] s[i]),
    ensures
        compact(s) == seq![' '],
    decreases s.len(),
{
    let init = s.drop_last();
    assert(is_blank(s[s.len() - 1]));
    if s.len() > 1 {
        assert(is_blank(s[s.len() - 2]));
        assert forall|i: int| 0 <= i < init.len() implies is_blank(#[trigger] init[i]) by {
            assert(init[i] == s[i]);
        }
        lemma_compact_blanks(init);
    } else {
        assert(compact(init) =~= seq![]);
        assert(compact(s) =~= seq![' ']);
    }
}

proof fn lemma_compact_words(s: Seq<char>)
    requires
        forall|i: int| 0 <= i < s.len() ==> !is_blank(#[trigger] s[i]),
    ensures
        compact(s) == s,
    decreases s.len(),
{
    if s.len() > 0 {
        let init = s.drop_last();
        assert(!is_blank(s[s.len() - 1]));
        assert forall|i: int| 0 <= i < init.len() implies !is_blank(#[trigger] init[i]) by {
            assert(init[i] == s[i]);
        }
        lemma_compact_words(init);
        assert(compact(s) =~= s);
    } else {
        assert(compact(s) =~= s);
    }
}

proof fn lemma_compact_parts(first: Seq<char>, rest: Seq<char>)
    requires
        first.len() > 0,
        rest.len() > 0,
        !(is_blank(first.last()) && is_blank(rest[0])),
    ensures
        compact(first + rest) == compact(first) + compact(rest),
    decreases rest.len(),
{
    let whole = first + rest;
    assert(whole.last() == rest.last());
    if rest.len() == 1 {
        assert(whole.drop_last() =~= first);
        assert(rest.drop_last() =~= seq![]);
        assert(whole[whole.len() - 2] == first.last());
        assert(compact(rest.drop_last()) =~= seq![]);
        assert(compact(whole) =~= compact(first) + compact(rest));
    } else {
        lemma_compact_parts(first, rest.drop_last());
        assert(whole.drop_last() =~= first + rest.drop_last());
        assert(whole[whole.len() - 2] == rest[rest.len() - 2]);
        assert(compact(whole) =~= compact(first) + compact(rest));
    }
}

/// The contents of a list are those of its strings one by one, and those of an optional string are
/// those of the string.
pub proof fn contents_are_one_by_one(
    list: Seq<String>,
    slices: Seq<&str>,
    text: Option<String>,
    slice: Option<&str>,
)
    ensures
        contents(list).len() == list.len(),
        forall|i: int| 0 <= i < list.len() ==> #[trigger] contents(list)[i] == list[i]@,
        str_contents(slices).len() == slices.len(),
        forall|i: int| 0 <= i < slices.len() ==> #[trigger] str_contents(slices)[i] == slices[i]@,
        opt_text(text) is Some <==> text is Some,
        text matches Some(t) ==> opt_text(text) == Some(t@),
        opt_str(slice) is Some <==> slice is Some,
        slice matches Some(t) ==> opt_str(slice) == Some(t@),
{
}

proof fn lemma_compact_behind_blank(x: char, s: Seq<char>)
    requires
        is_blank(x),
        s.len() > 0,
        is_blank(s[0]),
    ensures
        compact(seq![x] + s) == compact(s),
    decreases s.len(),
{
    let whole = seq![x] + s;
    assert(whole.last() == s.last());
    if s.len() == 1 {
        assert(whole.drop_last() =~= seq![x]);
        assert(whole[whole.len() - 2] == x);
        lemma_compact_blanks(seq![x]);
        lemma_compact_blanks(s);
    } else {
        lemma_compact_behind_blank(x, s.drop_last());
        assert(whole.drop_last() =~= seq![x] + s.drop_last());
        assert(whole[whole.len() - 2] == s[s.len() - 2]);
    }
}

/// What begins with a blank is compacted the same behind anything: only what stands before it can
/// lose the blanks at its end.
pub proof fn what_begins_with_a_blank_stays_at_the_end(front: Seq<char>, back: Seq<char>)
    requires
        back.len() > 0,
        back[0] == ' ' || back[0] == '\t' || back[0] == '\n' || back[0] == '\r',
    ensures
        exists|kept: Seq<char>| compact(front + back) == #[trigger] (kept + compact(back)),
    decreases front.len(),
{
    if front.len() == 0 {
        assert(front + back =~= back);
        assert(compact(front + back) =~= Seq::<char>::empty() + compact(back));
    } else if !is_blank(front.last()) {
        lemma_compact_parts(front, back);
        assert(compact(front + back) == compact(front) + compact(back));
    } else {
        let x = front.last();
        let init = front.drop_last();
        let longer = seq![x] + back;
        lemma_compact_behind_blank(x, back);
        what_begins_with_a_blank_stays_at_the_end(init, longer);
        assert(init + longer =~= front + back);
    }
}

} // verus!
