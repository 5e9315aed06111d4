//! Characters and strings as the rest of the library reads them.

use vstd::prelude::*;

verus! {

/// `String::push` of the standard library appends one character.
pub assume_specification[ String::push ](s: &mut String, c: char)
    ensures
        final(s)@ == old(s)@.push(c),
;

/// `String::pop` of the standard library takes the last character off, if
/// there is one, and returns it.
pub assume_specification[ String::pop ](s: &mut String) -> (last: Option<char>)
    ensures
        old(s)@.len() > 0 ==> last == Some(old(s)@.last()) && final(s)@ == old(s)@.drop_last(),
        old(s)@.len() == 0 ==> last is None && final(s)@ == old(s)@,
;

/// Whether `char::is_uppercase` of the standard library takes `c` for an
/// uppercase character.
pub uninterp spec fn unicode_uppercase(c: char) -> bool;

/// `char::is_uppercase` of the standard library: whether the character has
/// Unicode's `Uppercase` property. What it returns depends on the character
/// alone; the contract gives it a name and says no more of it.
pub assume_specification[ char::is_uppercase ](c: char) -> (upper: bool)
    ensures
        upper == unicode_uppercase(c),
;

/// Whether `c` is an uppercase character: in ASCII one of the capital
/// letters `A` to `Z`, beyond ASCII what the standard library takes for one.
pub open spec fn is_upper(c: char) -> bool {
    if c <= '\u{7f}' {
        'A' <= c <= 'Z'
    } else {
        unicode_uppercase(c)
    }
}

/// Whether `c` is an uppercase character.
pub fn char_is_upper(c: char) -> (r: bool)
    ensures
        r == is_upper(c),
{
    if c <= '\u{7f}' {
        'A' <= c && c <= 'Z'
    } else {
        c.is_uppercase()
    }
}

/// Whether `c` is white space, as Unicode's `White_Space` property has it.
pub open spec fn is_space(c: char) -> bool {
    let p = c as u32;
    ||| 0x09 <= p <= 0x0D
    ||| p == 0x20
    ||| p == 0x85
    ||| p == 0xA0
    ||| p == 0x1680
    ||| 0x2000 <= p <= 0x200A
    ||| p == 0x2028
    ||| p == 0x2029
    ||| p == 0x202F
    ||| p == 0x205F
    ||| p == 0x3000
}

/// A string is blank when nothing but white space is in it, so that trimming
/// it leaves nothing. The empty string is blank.
pub open spec fn blank(s: Seq<char>) -> bool {
    forall|i: int| 0 <= i < s.len() ==> is_space(#[trigger] s[i])
}

/// Whether `c` is white space.
pub fn char_is_space(c: char) -> (r: bool)
    ensures
        r == is_space(c),
{
    let p: u32 = c as u32;
    (0x09 <= p && p <= 0x0D) || p == 0x20 || p == 0x85 || p == 0xA0 || p == 0x1680 || (0x2000 <= p
        && p <= 0x200A) || p == 0x2028 || p == 0x2029 || p == 0x202F || p == 0x205F || p == 0x3000
}

/// The characters of `s`, one by one.
pub fn chars_of(s: &str) -> (v: Vec<char>)
    ensures
        v@ == s@,
{
    let mut v: Vec<char> = Vec::new();
    for c in it: s.chars()
        invariant
            it.seq() == s@,
            v@ == s@.take(it.index() as int),
    {
        v.push(c);
    }
    assert(s@.take(s@.len() as int) == s@);
    v
}

/// The string made of the characters `v[from..to]`.
pub fn string_of(v: &Vec<char>, from: usize, to: usize) -> (s: String)
    requires
        from <= to <= v.len(),
    ensures
        s@ == v@.subrange(from as int, to as int),
{
    let mut s = String::new();
    let mut i: usize = from;
    while i < to
        invariant
            from <= i <= to <= v.len(),
            s@ == v@.subrange(from as int, i as int),
        decreases to - i,
    {
        s.push(v[i]);
        i += 1;
    }
    s
}

/// Whether `s` is blank.
pub fn is_blank(s: &str) -> (r: bool)
    ensures
        r == blank(s@),
{
    let v = chars_of(s);
    let mut i: usize = 0;
    while i < v.len()
        invariant
            i <= v.len(),
            v@ == s@,
            forall|j: int| 0 <= j < i ==> is_space(#[trigger] v@[j]),
        decreases v.len() - i,
    {
        if !char_is_space(v[i]) {
            assert(!is_space(s@[i as int]));
            return false;
        }
        i += 1;
    }
    true
}

/// The decimal digit for a value below ten.
pub open spec fn digit(d: int) -> char
    recommends
        0 <= d < 10,
{
    (('0' as u32) + d) as char
}

/// The decimal numeral of `n`, without leading zeros.
pub open spec fn decimal(n: nat) -> Seq<char>
    decreases n,
{
    if n < 10 {
        seq![digit(n as int)]
    } else {
        decimal(n / 10).push(digit((n % 10) as int))
    }
}

fn digit_char(d: u64) -> (c: char)
    requires
        d < 10,
    ensures
        c == digit(d as int),
{
    if d == 0 {
        '0'
    } else if d == 1 {
        '1'
    } else if d == 2 {
        '2'
    } else if d == 3 {
        '3'
    } else if d == 4 {
        '4'
    } else if d == 5 {
        '5'
    } else if d == 6 {
        '6'
    } else if d == 7 {
        '7'
    } else if d == 8 {
        '8'
    } else {
        '9'
    }
}

/// Appends the decimal numeral of `n` to `s`.
pub fn push_decimal(s: &mut String, n: u64)
    ensures
        final(s)@ == old(s)@ + decimal(n as nat),
    decreases n,
{
    if n >= 10 {
        push_decimal(s, n / 10);
    }
    s.push(digit_char(n % 10));
}

/// The place of the first `c` in `s`, if there is one.
pub open spec fn find_char(s: Seq<char>, c: char) -> Option<int>
    decreases s.len(),
{
    if s.len() == 0 {
        None
    } else if s[0] == c {
        Some(0)
    } else {
        match find_char(s.drop_first(), c) {
            Some(i) => Some(i + 1),
            None => None,
        }
    }
}

/// `s` without the white space it starts with.
pub open spec fn trim_start(s: Seq<char>) -> Seq<char>
    decreases s.len(),
{
    if s.len() > 0 && is_space(s[0]) {
        trim_start(s.drop_first())
    } else {
        s
    }
}

/// `s` without the white space it ends with.
pub open spec fn trim_end(s: Seq<char>) -> Seq<char>
    decreases s.len(),
{
    if s.len() > 0 && is_space(s.last()) {
        trim_end(s.drop_last())
    } else {
        s
    }
}

/// `s` without the white space at either end.
pub open spec fn trim(s: Seq<char>) -> Seq<char> {
    trim_end(trim_start(s))
}

/// `c` as names are compared, without regard to case: a capital ASCII
/// letter gives its small letter, and the Kelvin sign, whose small letter
/// Unicode takes to be `k`, gives `k`. Every other character gives itself.
pub open spec fn fold_char(c: char) -> char {
    if 'A' <= c <= 'Z' {
        ((c as u32) + 32) as char
    } else if c == '\u{212A}' {
        'k'
    } else {
        c
    }
}

/// `s` with every character folded.
pub open spec fn folded(s: Seq<char>) -> Seq<char> {
    Seq::new(s.len(), |i: int| fold_char(s[i]))
}

/// The first `c` in a string lies where none lies before it; none is found
/// where the string has none.
pub proof fn lemma_find_char(s: Seq<char>, c: char)
    ensures
        match find_char(s, c) {
            Some(i) => 0 <= i < s.len() && s[i] == c && forall|j: int| 0 <= j < i ==> s[j] != c,
            None => forall|j: int| 0 <= j < s.len() ==> s[j] != c,
        },
    decreases s.len(),
{
    if s.len() > 0 && s[0] != c {
        let rest = s.drop_first();
        lemma_find_char(rest, c);
        match find_char(rest, c) {
            Some(i) => {
                assert forall|j: int| 0 <= j < i + 1 implies s[j] != c by {
                    if j > 0 {
                        assert(rest[j - 1] == s[j]);
                    }
                }
            },
            None => {
                assert forall|j: int| 0 <= j < s.len() implies s[j] != c by {
                    if j > 0 {
                        assert(rest[j - 1] == s[j]);
                    }
                }
            },
        }
    }
}

/// A place that holds `c` with none before it is where the search finds it.
pub proof fn lemma_find_char_at(s: Seq<char>, c: char, i: int)
    requires
        0 <= i < s.len(),
        s[i] == c,
        forall|j: int| 0 <= j < i ==> s[j] != c,
    ensures
        find_char(s, c) == Some(i),
{
    lemma_find_char(s, c);
}

/// A string without `c` is searched in vain.
pub proof fn lemma_find_char_none(s: Seq<char>, c: char)
    requires
        forall|j: int| 0 <= j < s.len() ==> s[j] != c,
    ensures
        find_char(s, c) is None,
{
    lemma_find_char(s, c);
}

/// The place of the first `c` in `v[from..]`, counted from the start of `v`.
pub fn find_from(v: &Vec<char>, from: usize, c: char) -> (found: Option<usize>)
    requires
        from <= v.len(),
    ensures
        match found {
            Some(i) => from <= i < v.len() && find_char(v@.skip(from as int), c) == Some(
                i - from,
            ),
            None => find_char(v@.skip(from as int), c) is None,
        },
{
    let mut i: usize = from;
    while i < v.len()
        invariant
            from <= i <= v.len(),
            forall|j: int| from <= j < i ==> v@[j] != c,
        decreases v.len() - i,
    {
        if v[i] == c {
            proof {
                lemma_find_char_at(v@.skip(from as int), c, i - from);
            }
            return Some(i);
        }
        i += 1;
    }
    proof {
        lemma_find_char_none(v@.skip(from as int), c);
    }
    None
}

/// Trimming the start of a string that starts with white space is trimming
/// what follows it.
pub proof fn lemma_trim_start_skip(s: Seq<char>, k: int)
    requires
        0 <= k <= s.len(),
        forall|j: int| 0 <= j < k ==> is_space(#[trigger] s[j]),
    ensures
        trim_start(s) == trim_start(s.skip(k)),
    decreases k,
{
    if k > 0 {
        assert(s.drop_first().skip(k - 1) == s.skip(k));
        assert forall|j: int| 0 <= j < k - 1 implies is_space(#[trigger] s.drop_first()[j]) by {
            assert(s.drop_first()[j] == s[j + 1]);
        }
        lemma_trim_start_skip(s.drop_first(), k - 1);
    } else {
        assert(s.skip(0) == s);
    }
}

/// Trimming the end of a string that ends with white space is trimming what
/// comes before it.
pub proof fn lemma_trim_end_take(s: Seq<char>, k: int)
    requires
        0 <= k <= s.len(),
        forall|j: int| k <= j < s.len() ==> is_space(#[trigger] s[j]),
    ensures
        trim_end(s) == trim_end(s.take(k)),
    decreases s.len() - k,
{
    if k < s.len() {
        assert(s.drop_last().take(k) == s.take(k));
        lemma_trim_end_take(s.drop_last(), k);
    } else {
        assert(s.take(k) == s);
    }
}

/// A string is blank exactly when trimming leaves nothing of it.
pub proof fn lemma_blank_is_empty_trim(s: Seq<char>)
    ensures
        blank(s) <==> trim(s).len() == 0,
{
    lemma_blank_trim_start(s);
    lemma_trim_start_ends(s);
    lemma_trim_end_keeps_first(trim_start(s));
}

proof fn lemma_blank_trim_start(s: Seq<char>)
    ensures
        blank(s) <==> trim_start(s).len() == 0,
    decreases s.len(),
{
    if s.len() > 0 {
        if is_space(s[0]) {
            let rest = s.drop_first();
            lemma_blank_trim_start(rest);
            if blank(s) {
                assert forall|i: int| 0 <= i < rest.len() implies is_space(#[trigger] rest[i]) by {
                    assert(rest[i] == s[i + 1]);
                }
            }
            if blank(rest) {
                assert forall|i: int| 0 <= i < s.len() implies is_space(#[trigger] s[i]) by {
                    if i > 0 {
                        assert(s[i] == rest[i - 1]);
                    }
                }
            }
        }
    }
}

proof fn lemma_trim_end_keeps_first(s: Seq<char>)
    requires
        s.len() > 0 ==> !is_space(s[0]),
    ensures
        s.len() > 0 ==> trim_end(s).len() > 0,
    decreases s.len(),
{
    if s.len() > 1 && is_space(s.last()) {
        lemma_trim_end_keeps_first(s.drop_last());
    }
}

/// What trimming leaves neither starts nor ends with white space, so that
/// unless it is empty it is not blank.
pub proof fn lemma_trim_not_blank(s: Seq<char>)
    ensures
        trim(s).len() > 0 ==> !is_space(trim(s)[0]) && !is_space(trim(s).last()) && !blank(trim(s)),
{
    lemma_trim_start_ends(s);
    lemma_trim_end_keeps_start(trim_start(s));
    if trim(s).len() > 0 {
        assert(!is_space(trim(s)[0]));
    }
}

proof fn lemma_trim_start_ends(s: Seq<char>)
    ensures
        trim_start(s).len() > 0 ==> !is_space(trim_start(s)[0]),
    decreases s.len(),
{
    if s.len() > 0 && is_space(s[0]) {
        lemma_trim_start_ends(s.drop_first());
    }
}

proof fn lemma_trim_end_keeps_start(s: Seq<char>)
    ensures
        trim_end(s).len() <= s.len(),
        trim_end(s) == s.take(trim_end(s).len() as int),
        trim_end(s).len() > 0 ==> !is_space(trim_end(s).last()),
    decreases s.len(),
{
    if s.len() > 0 && is_space(s.last()) {
        lemma_trim_end_keeps_start(s.drop_last());
        assert(s.drop_last().take(trim_end(s).len() as int) == s.take(trim_end(s).len() as int));
    } else {
        assert(s.take(s.len() as int) == s);
    }
}

/// The part of `v[from..to]` that trimming leaves, as a range of `v`.
pub fn trim_range(v: &Vec<char>, from: usize, to: usize) -> (kept: (usize, usize))
    requires
        from <= to <= v.len(),
    ensures
        from <= kept.0 <= kept.1 <= to,
        v@.subrange(kept.0 as int, kept.1 as int) == trim(v@.subrange(from as int, to as int)),
{
    let ghost whole = v@.subrange(from as int, to as int);
    let mut a: usize = from;
    while a < to && char_is_space(v[a])
        invariant
            from <= a <= to <= v.len(),
            forall|j: int| from <= j < a ==> is_space(#[trigger] v@[j]),
        decreases to - a,
    {
        a += 1;
    }
    let ghost front = v@.subrange(a as int, to as int);
    proof {
        lemma_trim_start_skip(whole, a - from);
        assert(whole.skip(a - from) == front);
        assert(trim_start(front) == front);
    }
    let mut b: usize = to;
    while b > a && char_is_space(v[b - 1])
        invariant
            a <= b <= to <= v.len(),
            forall|j: int| b <= j < to ==> is_space(#[trigger] v@[j]),
        decreases b,
    {
        b -= 1;
    }
    proof {
        lemma_trim_end_take(front, b - a);
        assert(front.take(b - a) == v@.subrange(a as int, b as int));
        assert(trim_end(v@.subrange(a as int, b as int)) == v@.subrange(a as int, b as int));
    }
    (a, b)
}

/// Folds one character.
pub fn fold(c: char) -> (r: char)
    ensures
        r == fold_char(c),
{
    if 'A' <= c && c <= 'Z' {
        let code: u8 = c as u8;
        (code + 32) as char
    } else if c == '\u{212A}' {
        'k'
    } else {
        c
    }
}

/// Whether `v[from..to]`, folded, reads as `name`.
pub fn folds_to(v: &Vec<char>, from: usize, to: usize, name: &str) -> (r: bool)
    requires
        from <= to <= v.len(),
    ensures
        r == (folded(v@.subrange(from as int, to as int)) == name@),
{
    let want = chars_of(name);
    let ghost part = v@.subrange(from as int, to as int);
    if want.len() != to - from {
        return false;
    }
    let mut i: usize = 0;
    while i < want.len()
        invariant
            i <= want.len(),
            want.len() == to - from,
            from <= to <= v.len(),
            want@ == name@,
            part == v@.subrange(from as int, to as int),
            forall|j: int| 0 <= j < i ==> folded(part)[j] == want@[j],
        decreases want.len() - i,
    {
        if fold(v[from + i]) != want[i] {
            assert(folded(part)[i as int] != name@[i as int]);
            return false;
        }
        i += 1;
    }
    assert(folded(part) =~= name@);
    true
}

/// Whether two strings hold the same characters.
pub fn same_text(a: &str, b: &str) -> (r: bool)
    ensures
        r == (a@ == b@),
{
    let x = chars_of(a);
    let y = chars_of(b);
    if x.len() != y.len() {
        return false;
    }
    let mut i: usize = 0;
    while i < x.len()
        invariant
            i <= x.len(),
            x.len() == y.len(),
            x@ == a@,
            y@ == b@,
            forall|j: int| 0 <= j < i ==> x@[j] == y@[j],
        decreases x.len() - i,
    {
        if x[i] != y[i] {
            assert(a@[i as int] != b@[i as int]);
            return false;
        }
        i += 1;
    }
    assert(a@ =~= b@);
    true
}

/// `s` without the white space at either end, as a string of its own.
pub fn trimmed(s: &str) -> (r: String)
    ensures
        r@ == trim(s@),
{
    let v = chars_of(s);
    let (a, b) = trim_range(&v, 0, v.len());
    proof {
        assert(v@.subrange(0, v.len() as int) == v@);
    }
    string_of(&v, a, b)
}

/// `prefix` followed by `rest`.
pub fn followed_by(prefix: &str, rest: &str) -> (r: String)
    ensures
        r@ == prefix@ + rest@,
{
    let mut r = prefix.to_owned();
    r.append(rest);
    r
}

} // verus!
