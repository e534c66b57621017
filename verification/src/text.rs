//! Character-level helpers on which the parsers of command output are built.
//!
//! Every function here is stated over `Seq<char>`, the view of `str` and
//! `String`. The executable versions scan a `Vec<char>` copy of the text and
//! cut the results out of the text by character positions.

use vstd::prelude::*;

verus! {

/// The views of a sequence of strings.
pub open spec fn texts(v: Seq<String>) -> Seq<Seq<char>> {
    v.map_values(|s: String| s@)
}

/// The view of a string that may be missing.
pub open spec fn maybe_text(s: Option<String>) -> Option<Seq<char>> {
    match s {
        Some(t) => Some(t@),
        None => None,
    }
}

/// The index of the first `x` in `s`, or `s.len()` when `s` holds no `x`.
pub open spec fn position<T>(s: Seq<T>, x: T) -> nat
    decreases s.len(),
{
    if s.len() == 0 {
        0
    } else if s[0] == x {
        0
    } else {
        1 + position(s.drop_first(), x)
    }
}

/// `position` is the least index that holds `x`, and the length where none does.
pub proof fn lemma_position<T>(s: Seq<T>, x: T)
    ensures
        position(s, x) <= s.len(),
        forall|j: int| 0 <= j < position(s, x) ==> s[j] != x,
        position(s, x) < s.len() ==> s[position(s, x) as int] == x,
    decreases s.len(),
{
    if s.len() != 0 && s[0] != x {
        let rest = s.drop_first();
        lemma_position(rest, x);
        assert forall|j: int| 0 <= j < position(s, x) implies s[j] != x by {
            if j > 0 {
                assert(s[j] == rest[j - 1]);
            }
        }
    }
}

/// An index `k` with no `x` before it, and `x` at it or the end of `s`, is `position(s, x)`.
pub proof fn lemma_position_is<T>(s: Seq<T>, x: T, k: int)
    requires
        0 <= k <= s.len(),
        forall|j: int| 0 <= j < k ==> s[j] != x,
        k < s.len() ==> s[k] == x,
    ensures
        position(s, x) == k,
{
    lemma_position(s, x);
    let p = position(s, x) as int;
    if p < k {
        assert(s[p] != x);
    } else if k < p {
        assert(s[k] != x);
    }
}

/// Whether `x` occurs in `s`.
pub open spec fn holds<T>(s: Seq<T>, x: T) -> bool {
    position(s, x) < s.len()
}

/// `s` holds `x` exactly when one of its positions does.
pub proof fn lemma_holds<T>(s: Seq<T>, x: T)
    ensures
        holds(s, x) <==> exists|j: int| 0 <= j < s.len() && s[j] == x,
{
    lemma_position(s, x);
    if holds(s, x) {
        assert(s[position(s, x) as int] == x);
    }
}

/// The characters of `s`, in order.
pub fn chars_of(s: &str) -> (out: Vec<char>)
    ensures
        out@ == s@,
{
    let mut out: Vec<char> = Vec::new();
    for c in it: s.chars()
        invariant
            out@ == it.seq().take(it.index() as int),
            it.seq() == s@,
    {
        out.push(c);
    }
    out
}

/// The first index at or after `from` that holds `c`, or the length of `chars`.
pub(crate) fn find_char(chars: &Vec<char>, from: usize, c: char) -> (at: usize)
    requires
        from <= chars.len(),
    ensures
        at == from + position(chars@.skip(from as int), c),
        from <= at <= chars.len(),
{
    let mut at: usize = from;
    while at < chars.len() && chars[at] != c
        invariant
            from <= at <= chars.len(),
            forall|j: int| from <= j < at ==> chars@[j] != c,
        decreases chars.len() - at,
    {
        at += 1;
    }
    proof {
        lemma_position_is(chars@.skip(from as int), c, at - from);
    }
    at
}

/// Whether the two texts hold the same characters.
pub fn same_text(a: &str, b: &str) -> (same: bool)
    ensures
        same == (a@ == b@),
{
    let x = chars_of(a);
    let y = chars_of(b);
    if x.len() != y.len() {
        return false;
    }
    let mut i: usize = 0;
    while i < x.len()
        invariant
            i <= x.len(),
            x.len() == y.len(),
            x@ == a@,
            y@ == b@,
            forall|j: int| 0 <= j < i ==> x@[j] == y@[j],
        decreases x.len() - i,
    {
        if x[i] != y[i] {
            return false;
        }
        i += 1;
    }
    assert(x@ =~= y@);
    true
}

/// The characters of `s` from position `from` up to, not including, `to`.
pub(crate) fn cut(s: &str, from: usize, to: usize) -> (out: String)
    requires
        from <= to <= s@.len(),
    ensures
        out@ == s@.subrange(from as int, to as int),
{
    s.substring_char(from, to).to_owned()
}

/// `line` without one trailing carriage return.
pub open spec fn without_cr(line: Seq<char>) -> Seq<char> {
    if line.len() > 0 && line.last() == '\r' {
        line.drop_last()
    } else {
        line
    }
}

/// The lines of `s`. A line ends at a line feed, or at a carriage return
/// directly followed by one; neither belongs to the line. What follows the
/// last line feed is a line too, unless it is empty, and keeps a carriage
/// return at its end.
pub open spec fn lines(s: Seq<char>) -> Seq<Seq<char>>
    decreases s.len(),
{
    let end = position(s, '\n');
    if s.len() == 0 {
        Seq::empty()
    } else if end >= s.len() {
        seq![s]
    } else {
        seq![without_cr(s.take(end as int))] + lines(s.skip(end as int + 1))
    }
}

/// The lines of `s`, as `lines` defines them.
pub fn split_lines(s: &str) -> (out: Vec<String>)
    ensures
        texts(out@) == lines(s@),
{
    let chars = chars_of(s);
    let n = chars.len();
    let mut out: Vec<String> = Vec::new();
    let mut start: usize = 0;
    assert(s@.skip(0) == s@);
    assert(texts(out@) + lines(s@) == lines(s@));
    while start < n
        invariant
            start <= n,
            n == chars.len(),
            chars@ == s@,
            texts(out@) + lines(s@.skip(start as int)) == lines(s@),
        decreases n - start,
    {
        let end = find_char(&chars, start, '\n');
        let ghost rest = s@.skip(start as int);
        proof {
            lemma_position(rest, '\n');
        }
        let stop = if end < n && end > start && chars[end - 1] == '\r' {
            end - 1
        } else {
            end
        };
        let line = cut(s, start, stop);
        let ghost before = out@;
        out.push(line);
        let next = if end < n {
            end + 1
        } else {
            end
        };
        proof {
            assert(rest.take(end - start) == s@.subrange(start as int, end as int));
            if end < n {
                assert(line@ == without_cr(rest.take(end - start)));
                assert(rest.skip(end - start + 1) == s@.skip(next as int));
            } else {
                assert(line@ == rest);
                assert(lines(s@.skip(next as int)) == Seq::<Seq<char>>::empty());
            }
            assert(lines(rest) == seq![line@] + lines(s@.skip(next as int)));
            assert(texts(out@) == texts(before) + seq![line@]);
            assert(texts(out@) + lines(s@.skip(next as int)) == texts(before) + lines(rest));
        }
        start = next;
    }
    assert(texts(out@) + lines(s@.skip(start as int)) == texts(out@));
    out
}

/// Whether `s` begins with `prefix`.
pub fn has_prefix(s: &str, prefix: &str) -> (yes: bool)
    ensures
        yes == prefix@.is_prefix_of(s@),
{
    let x = chars_of(s);
    let p = chars_of(prefix);
    if p.len() > x.len() {
        return false;
    }
    let mut i: usize = 0;
    while i < p.len()
        invariant
            i <= p.len() <= x.len(),
            x@ == s@,
            p@ == prefix@,
            forall|j: int| 0 <= j < i ==> x@[j] == p@[j],
        decreases p.len() - i,
    {
        if x[i] != p[i] {
            assert(s@.subrange(0, p.len() as int)[i as int] != p@[i as int]);
            return false;
        }
        i += 1;
    }
    assert(p@ =~= s@.subrange(0, p.len() as int));
    true
}

/// Whether `a` comes before `b` in the lexicographic order of their characters,
/// each character ranked by its code point.
pub open spec fn precedes(a: Seq<char>, b: Seq<char>) -> bool
    decreases a.len(),
{
    if b.len() == 0 {
        false
    } else if a.len() == 0 {
        true
    } else if a[0] != b[0] {
        (a[0] as u32) < (b[0] as u32)
    } else {
        precedes(a.drop_first(), b.drop_first())
    }
}

/// Whether `a` comes before `b` in lexicographic order.
pub fn comes_before(a: &str, b: &str) -> (yes: bool)
    ensures
        yes == precedes(a@, b@),
{
    let x = chars_of(a);
    let y = chars_of(b);
    let mut i: usize = 0;
    assert(a@.skip(0) == a@ && b@.skip(0) == b@);
    while i < x.len() && i < y.len()
        invariant
            i <= x.len(),
            i <= y.len(),
            x@ == a@,
            y@ == b@,
            precedes(a@, b@) == precedes(a@.skip(i as int), b@.skip(i as int)),
        decreases x.len() - i,
    {
        let ghost ra = a@.skip(i as int);
        let ghost rb = b@.skip(i as int);
        assert(ra[0] == x@[i as int] && rb[0] == y@[i as int]);
        assert(ra.drop_first() == a@.skip(i + 1));
        assert(rb.drop_first() == b@.skip(i + 1));
        if x[i] != y[i] {
            return (x[i] as u32) < (y[i] as u32);
        }
        i += 1;
    }
    i < y.len()
}

/// The white space of Unicode (the characters with the property `White_Space`).
pub open spec fn is_space(c: char) -> bool {
    let u = c as u32;
    ||| 0x09 <= u <= 0x0D
    ||| u == 0x20
    ||| u == 0x85
    ||| u == 0xA0
    ||| u == 0x1680
    ||| 0x2000 <= u <= 0x200A
    ||| u == 0x2028
    ||| u == 0x2029
    ||| u == 0x202F
    ||| u == 0x205F
    ||| u == 0x3000
}

/// Whether `c` is white space.
pub fn is_space_char(c: char) -> (yes: bool)
    ensures
        yes == is_space(c),
{
    let u: u32 = c as u32;
    (0x09 <= u && u <= 0x0D) || u == 0x20 || u == 0x85 || u == 0xA0 || u == 0x1680 || (0x2000 <= u
        && u <= 0x200A) || u == 0x2028 || u == 0x2029 || u == 0x202F || u == 0x205F || u == 0x3000
}

/// How many characters at the start of `s` are white space (`space` true), or
/// are not (`space` false).
pub open spec fn run(s: Seq<char>, space: bool) -> nat
    decreases s.len(),
{
    if s.len() > 0 && is_space(s[0]) == space {
        1 + run(s.drop_first(), space)
    } else {
        0
    }
}

/// A run ends where the text ends or the kind of character changes.
pub proof fn lemma_run(s: Seq<char>, space: bool)
    ensures
        run(s, space) <= s.len(),
        forall|j: int| 0 <= j < run(s, space) ==> is_space(s[j]) == space,
        run(s, space) < s.len() ==> is_space(s[run(s, space) as int]) != space,
    decreases s.len(),
{
    if s.len() > 0 && is_space(s[0]) == space {
        let rest = s.drop_first();
        lemma_run(rest, space);
        assert forall|j: int| 0 <= j < run(s, space) implies is_space(s[j]) == space by {
            if j > 0 {
                assert(s[j] == rest[j - 1]);
            }
        }
    }
}

/// A stretch of `k` characters of one kind, ended by the other kind or the end
/// of `s`, is the run at the start of `s`.
pub proof fn lemma_run_is(s: Seq<char>, space: bool, k: int)
    requires
        0 <= k <= s.len(),
        forall|j: int| 0 <= j < k ==> is_space(s[j]) == space,
        k < s.len() ==> is_space(s[k]) != space,
    ensures
        run(s, space) == k,
{
    lemma_run(s, space);
    let r = run(s, space) as int;
    if r < k {
        assert(is_space(s[r]) == space);
    } else if k < r {
        assert(is_space(s[k]) == space);
    }
}

/// The index at which the run that starts at `from` ends.
pub(crate) fn skip_run(chars: &Vec<char>, from: usize, space: bool) -> (at: usize)
    requires
        from <= chars.len(),
    ensures
        at == from + run(chars@.skip(from as int), space),
        from <= at <= chars.len(),
{
    let mut at: usize = from;
    while at < chars.len() && is_space_char(chars[at]) == space
        invariant
            from <= at <= chars.len(),
            forall|j: int| from <= j < at ==> is_space(chars@[j]) == space,
        decreases chars.len() - at,
    {
        at += 1;
    }
    proof {
        lemma_run_is(chars@.skip(from as int), space, at - from);
    }
    at
}

/// The field of index `n` among the fields of `s`, the stretches of `s` that
/// hold no white space and cannot be extended; `None` where `s` has no more
/// than `n` fields.
pub open spec fn field(s: Seq<char>, n: nat) -> Option<Seq<char>>
    decreases n,
{
    let body = s.skip(run(s, true) as int);
    let word = run(body, false) as int;
    if body.len() == 0 {
        None
    } else if n == 0 {
        Some(body.take(word))
    } else {
        field(body.skip(word), (n - 1) as nat)
    }
}

/// The field of index `n` of `s`.
pub fn nth_field(s: &str, n: usize) -> (out: Option<String>)
    ensures
        out matches Some(f) ==> field(s@, n as nat) == Some(f@),
        out is None ==> field(s@, n as nat) is None,
{
    let chars = chars_of(s);
    let len = chars.len();
    let mut at: usize = 0;
    let mut left: usize = n;
    assert(s@.skip(0) == s@);
    loop
        invariant
            at <= len,
            len == chars.len(),
            chars@ == s@,
            left <= n,
            field(s@, n as nat) == field(s@.skip(at as int), left as nat),
        decreases left,
    {
        let ghost rest = s@.skip(at as int);
        let begin = skip_run(&chars, at, true);
        if begin >= len {
            assert(rest.skip(run(rest, true) as int).len() == 0);
            return None;
        }
        let end = skip_run(&chars, begin, false);
        proof {
            assert(rest.skip(run(rest, true) as int) == s@.skip(begin as int));
            let body = s@.skip(begin as int);
            assert(body.take(end - begin) == s@.subrange(begin as int, end as int));
            assert(body.skip(end - begin) == s@.skip(end as int));
        }
        if left == 0 {
            return Some(cut(s, begin, end));
        }
        left -= 1;
        at = end;
    }
}

/// The text without the white space at its start.
pub open spec fn trim_start(s: Seq<char>) -> Seq<char> {
    s.skip(run(s, true) as int)
}

/// How many characters at the end of `s` are white space.
pub open spec fn trailing(s: Seq<char>) -> nat
    decreases s.len(),
{
    if s.len() > 0 && is_space(s.last()) {
        1 + trailing(s.drop_last())
    } else {
        0
    }
}

/// The text without the white space at its start and at its end.
pub open spec fn trim(s: Seq<char>) -> Seq<char> {
    let t = trim_start(s);
    t.take(t.len() - trailing(t))
}

/// The white space at the end of `s` is a stretch of white space that ends `s`
/// and cannot be extended.
pub proof fn lemma_trailing_is(s: Seq<char>, k: int)
    requires
        0 <= k <= s.len(),
        forall|j: int| s.len() - k <= j < s.len() ==> is_space(s[j]),
        k < s.len() ==> !is_space(s[s.len() - k - 1]),
    ensures
        trailing(s) == k,
    decreases s.len(),
{
    if s.len() > 0 && is_space(s.last()) {
        assert(k > 0);
        let rest = s.drop_last();
        assert forall|j: int| rest.len() - (k - 1) <= j < rest.len() implies is_space(rest[j]) by {
            assert(rest[j] == s[j]);
        }
        lemma_trailing_is(rest, k - 1);
    }
}

/// `s` without the white space at its start and at its end.
pub fn trimmed(s: &str) -> (out: String)
    ensures
        out@ == trim(s@),
{
    let chars = chars_of(s);
    assert(s@.skip(0) == s@);
    let begin = skip_run(&chars, 0, true);
    let mut end: usize = chars.len();
    while end > begin && is_space_char(chars[end - 1])
        invariant
            begin <= end <= chars.len(),
            forall|j: int| end <= j < chars.len() ==> is_space(chars@[j]),
        decreases end,
    {
        end -= 1;
    }
    proof {
        let t = trim_start(s@);
        lemma_run(s@, true);
        lemma_trailing_is(t, chars.len() - end);
        assert(t.take(t.len() - trailing(t)) == s@.subrange(begin as int, end as int));
    }
    cut(s, begin, end)
}

/// Whether `c` is one of the ten decimal digits of ASCII.
pub open spec fn is_digit(c: char) -> bool {
    0x30 <= c as u32 <= 0x39
}

/// Whether every character of `s` is a decimal digit of ASCII.
pub open spec fn all_digits(s: Seq<char>) -> bool {
    forall|i: int| 0 <= i < s.len() ==> is_digit(#[trigger] s[i])
}

/// The number that the digits of `s` write in base ten.
pub open spec fn decimal(s: Seq<char>) -> nat
    decreases s.len(),
{
    if s.len() == 0 {
        0
    } else {
        decimal(s.drop_last()) * 10 + (s.last() as u32 - 0x30) as nat
    }
}

/// A numeral is worth at least as much as each numeral that it begins with.
pub proof fn lemma_decimal_grows(s: Seq<char>, k: int)
    requires
        0 <= k <= s.len(),
        all_digits(s),
    ensures
        decimal(s.take(k)) <= decimal(s),
    decreases s.len() - k,
{
    if k < s.len() {
        let front = s.drop_last();
        assert(is_digit(s[s.len() - 1]));
        assert(front.take(k) == s.take(k));
        assert(all_digits(front)) by {
            assert forall|i: int| 0 <= i < front.len() implies is_digit(#[trigger] front[i]) by {
                assert(front[i] == s[i]);
            }
        }
        if k < front.len() {
            lemma_decimal_grows(front, k);
        } else {
            assert(front.take(k) == front);
        }
    } else {
        assert(s.take(k) == s);
    }
}

/// The number that `s` writes, where `s` is one or more decimal digits and the
/// number is at most `limit`.
pub open spec fn numeral(s: Seq<char>, limit: nat) -> Option<nat> {
    if s.len() > 0 && all_digits(s) && decimal(s) <= limit {
        Some(decimal(s))
    } else {
        None
    }
}

/// The number written by the characters of `chars` from `from` on, where they
/// are one or more decimal digits and the number fits in `u64`.
pub(crate) fn read_digits(chars: &Vec<char>, from: usize) -> (out: Option<u64>)
    requires
        from <= chars.len(),
    ensures
        out matches Some(v) ==> numeral(chars@.skip(from as int), u64::MAX as nat) == Some(
            v as nat,
        ),
        out is None ==> numeral(chars@.skip(from as int), u64::MAX as nat) is None,
{
    let ghost digits = chars@.skip(from as int);
    if from == chars.len() {
        return None;
    }
    let mut value: u64 = 0;
    let mut i: usize = from;
    assert(digits.take(0) == Seq::<char>::empty());
    while i < chars.len()
        invariant
            from <= i <= chars.len(),
            digits == chars@.skip(from as int),
            all_digits(digits.take(i - from)),
            value == decimal(digits.take(i - from)),
        decreases chars.len() - i,
    {
        let u: u32 = chars[i] as u32;
        let ghost upto = digits.take(i - from + 1);
        assert(upto.drop_last() == digits.take(i - from));
        assert(upto.last() == chars@[i as int]);
        if u < 0x30 || u > 0x39 {
            assert(!is_digit(digits[i - from]));
            return None;
        }
        assert(all_digits(upto)) by {
            assert forall|j: int| 0 <= j < upto.len() implies is_digit(#[trigger] upto[j]) by {
                if j < i - from {
                    assert(upto[j] == digits.take(i - from)[j]);
                }
            }
        }
        let d: u64 = (u - 0x30) as u64;
        if value > (u64::MAX - d) / 10 {
            proof {
                if all_digits(digits) {
                    lemma_decimal_grows(digits, i - from + 1);
                }
            }
            return None;
        }
        value = value * 10 + d;
        i += 1;
    }
    assert(digits.take(i - from) == digits);
    Some(value)
}

/// The value of `s` as an unsigned 64-bit number: one or more decimal digits,
/// after at most one `+`, that write a number below 2^64.
pub open spec fn unsigned_value(s: Seq<char>) -> Option<u64> {
    let digits = if s.len() > 0 && s[0] == '+' {
        s.drop_first()
    } else {
        s
    };
    match numeral(digits, u64::MAX as nat) {
        Some(v) => Some(v as u64),
        None => None,
    }
}

/// The value of `s` as an unsigned 64-bit number.
pub fn parse_unsigned(s: &str) -> (out: Option<u64>)
    ensures
        out == unsigned_value(s@),
{
    let chars = chars_of(s);
    let from: usize = if chars.len() > 0 && chars[0] == '+' {
        1
    } else {
        0
    };
    assert(s@.skip(0) == s@);
    assert(s@.skip(1) == s@.drop_first());
    read_digits(&chars, from)
}

/// `a` followed by `b`.
pub fn joined(a: &str, b: &str) -> (out: String)
    ensures
        out@ == a@ + b@,
{
    let mut out = a.to_owned();
    out.append(b);
    out
}

} // verus!
