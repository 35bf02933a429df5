//! Character-sequence utilities shared by the launcher modules.
use vstd::prelude::*;

verus! {

/// Calls `String::push`, which std documents as appending the character to
/// the end of the string: the contract says that the string's characters
/// afterwards are the ones before followed by `c`.
#[verifier::external_body]
pub(crate) fn string_push(s: &mut String, c: char)
    ensures
        final(s)@ == old(s)@.push(c),
{
    s.push(c);
}

/// The characters of a string slice, in order.
pub fn chars_of(s: &str) -> (v: Vec<char>)
    ensures
        v@ == s@,
{
    let mut v: Vec<char> = Vec::new();
    for c in it: s.chars()
        invariant
            v@ == it.seq().take(it.index() as int),
            it.seq() == s@,
    {
        v.push(c);
    }
    v
}

/// Builds a `String` from characters.
pub fn string_of(v: &[char]) -> (s: String)
    ensures
        s@ == v@,
{
    let mut s = String::new();
    let mut i: usize = 0;
    while i < v.len()
        invariant
            i <= v.len(),
            s@ == v@.take(i as int),
        decreases v.len() - i,
    {
        string_push(&mut s, v[i]);
        assert(v@.take(i as int).push(v@[i as int]) =~= v@.take(i + 1));
        i += 1;
    }
    assert(v@.take(v.len() as int) =~= v@);
    s
}


/// Unicode `White_Space`, as `char::is_whitespace` reports it.
pub open spec fn is_ws(c: char) -> bool {
    let n = c as u32;
    ||| 9 <= n <= 13
    ||| n == 32
    ||| n == 0x85
    ||| n == 0xA0
    ||| n == 0x1680
    ||| 0x2000 <= n <= 0x200A
    ||| n == 0x2028
    ||| n == 0x2029
    ||| n == 0x202F
    ||| n == 0x205F
    ||| n == 0x3000
}

/// Whether `c` is Unicode white space.
pub fn is_whitespace(c: char) -> (b: bool)
    ensures
        b == is_ws(c),
{
    let n = c as u32;
    (9 <= n && n <= 13) || n == 32 || n == 0x85 || n == 0xA0 || n == 0x1680 || (0x2000 <= n && n
        <= 0x200A) || n == 0x2028 || n == 0x2029 || n == 0x202F || n == 0x205F || n == 0x3000
}

/// Appends `s` to `out`.
pub fn push_all(out: &mut Vec<char>, s: &[char])
    ensures
        final(out)@ == old(out)@ + s@,
{
    let ghost base = out@;
    let mut k: usize = 0;
    while k < s.len()
        invariant
            k <= s.len(),
            out@ == base + s@.take(k as int),
        decreases s.len() - k,
    {
        out.push(s[k]);
        assert(out@ =~= base + s@.take(k + 1));
        k += 1;
    }
    assert(s@.take(s.len() as int) =~= s@);
}

/// A copy of `s`.
pub fn copy_chars(s: &[char]) -> (out: Vec<char>)
    ensures
        out@ == s@,
{
    let mut out: Vec<char> = Vec::new();
    push_all(&mut out, s);
    assert(out@ =~= s@);
    out
}

/// Whether `a` and `b` hold the same characters.
pub fn chars_eq(a: &[char], b: &[char]) -> (eq: bool)
    ensures
        eq == (a@ == b@),
{
    if a.len() != b.len() {
        return false;
    }
    let mut i: usize = 0;
    while i < a.len()
        invariant
            a.len() == b.len(),
            i <= a.len(),
            forall|j: int| 0 <= j < i ==> a@[j] == b@[j],
        decreases a.len() - i,
    {
        if a[i] != b[i] {
            return false;
        }
        i += 1;
    }
    assert(a@ =~= b@);
    true
}

/// `s` without leading white space.
pub open spec fn trim_start(s: Seq<char>) -> Seq<char>
    decreases s.len(),
{
    if s.len() > 0 && is_ws(s[0]) {
        trim_start(s.drop_first())
    } else {
        s
    }
}

/// `s` without trailing white space.
pub open spec fn trim_end(s: Seq<char>) -> Seq<char>
    decreases s.len(),
{
    if s.len() > 0 && is_ws(s.last()) {
        trim_end(s.drop_last())
    } else {
        s
    }
}

/// `s` without leading and trailing white space (`str::trim`).
pub open spec fn trim(s: Seq<char>) -> Seq<char> {
    trim_end(trim_start(s))
}

/// The characters of `s` from `from` up to `to`.
pub fn slice_chars(s: &[char], from: usize, to: usize) -> (out: Vec<char>)
    requires
        from <= to <= s.len(),
    ensures
        out@ == s@.subrange(from as int, to as int),
{
    let mut out: Vec<char> = Vec::new();
    let mut k = from;
    while k < to
        invariant
            from <= k <= to <= s.len(),
            out@ == s@.subrange(from as int, k as int),
        decreases to - k,
    {
        out.push(s[k]);
        assert(out@ =~= s@.subrange(from as int, k + 1));
        k += 1;
    }
    out
}

/// `s` without leading and trailing white space.
pub fn trim_chars(s: &[char]) -> (out: Vec<char>)
    ensures
        out@ == trim(s@),
{
    let mut i: usize = 0;
    assert(s@.skip(0) =~= s@);
    while i < s.len() && is_whitespace(s[i])
        invariant
            i <= s.len(),
            trim_start(s@.skip(i as int)) == trim_start(s@),
        decreases s.len() - i,
    {
        assert(s@.skip(i as int).drop_first() =~= s@.skip(i + 1));
        i += 1;
    }
    let mut j: usize = s.len();
    assert(s@.subrange(i as int, j as int) =~= s@.skip(i as int));
    while j > i && is_whitespace(s[j - 1])
        invariant
            i <= j <= s.len(),
            trim_start(s@) == s@.skip(i as int),
            trim_end(s@.subrange(i as int, j as int)) == trim(s@),
        decreases j - i,
    {
        assert(s@.subrange(i as int, j as int).drop_last() =~= s@.subrange(i as int, j - 1));
        j -= 1;
    }
    slice_chars(s, i, j)
}

/// The index of the first `c` in `s`, or -1.
pub open spec fn find_char(s: Seq<char>, c: char) -> int
    decreases s.len(),
{
    if s.len() == 0 {
        -1
    } else if s[0] == c {
        0
    } else {
        let r = find_char(s.drop_first(), c);
        if r < 0 {
            -1
        } else {
            r + 1
        }
    }
}

pub proof fn lemma_find_char_bounds(s: Seq<char>, c: char)
    ensures
        -1 <= find_char(s, c) < s.len(),
        find_char(s, c) >= 0 ==> s[find_char(s, c)] == c,
        find_char(s, c) >= 0 ==> forall|j: int| 0 <= j < find_char(s, c) ==> s[j] != c,
        find_char(s, c) < 0 ==> forall|j: int| 0 <= j < s.len() ==> s[j] != c,
    decreases s.len(),
{
    if s.len() > 0 && s[0] != c {
        lemma_find_char_bounds(s.drop_first(), c);
        assert forall|j: int| 1 <= j < s.len() implies s[j] == s.drop_first()[j - 1] by {}
    }
}

/// `str::split_once` with a character delimiter.
pub open spec fn split_once_spec(s: Seq<char>, c: char) -> Option<(Seq<char>, Seq<char>)> {
    let i = find_char(s, c);
    if i < 0 {
        None
    } else {
        Some((s.take(i), s.skip(i + 1)))
    }
}

/// The first position of `c` in `s`.
pub fn find_char_index(s: &[char], c: char) -> (r: Option<usize>)
    ensures
        match r {
            Some(i) => i == find_char(s@, c) && i < s@.len() && s@[i as int] == c,
            None => find_char(s@, c) < 0,
        },
{
    proof {
        lemma_find_char_bounds(s@, c);
    }
    let mut i: usize = 0;
    while i < s.len()
        invariant
            i <= s.len(),
            forall|j: int| 0 <= j < i ==> s@[j] != c,
            -1 <= find_char(s@, c) < s@.len(),
            find_char(s@, c) >= 0 ==> s@[find_char(s@, c)] == c,
            find_char(s@, c) >= 0 ==> forall|j: int| 0 <= j < find_char(s@, c) ==> s@[j] != c,
            find_char(s@, c) < 0 ==> forall|j: int| 0 <= j < s.len() ==> s@[j] != c,
        decreases s.len() - i,
    {
        if s[i] == c {
            return Some(i);
        }
        i += 1;
    }
    None
}

/// ASCII lower case of one character.
pub open spec fn ascii_lower(c: char) -> char {
    if 'A' <= c <= 'Z' {
        ((c as u32) + 32) as char
    } else {
        c
    }
}

/// `str::to_ascii_lowercase`.
pub open spec fn ascii_lowercase(s: Seq<char>) -> Seq<char> {
    s.map_values(|c: char| ascii_lower(c))
}

/// Lower-cases the ASCII letters of `s`.
pub fn to_ascii_lowercase(s: &[char]) -> (out: Vec<char>)
    ensures
        out@ == ascii_lowercase(s@),
{
    let mut out: Vec<char> = Vec::new();
    let mut i: usize = 0;
    while i < s.len()
        invariant
            i <= s.len(),
            out@ == ascii_lowercase(s@.take(i as int)),
        decreases s.len() - i,
    {
        let c = s[i];
        let l = if 'A' <= c && c <= 'Z' {
            char_from_ascii_lower(c)
        } else {
            c
        };
        out.push(l);
        assert(out@ =~= ascii_lowercase(s@.take(i + 1)));
        i += 1;
    }
    assert(s@.take(s.len() as int) =~= s@);
    out
}

fn char_from_ascii_lower(c: char) -> (l: char)
    requires
        'A' <= c <= 'Z',
    ensures
        l == ascii_lower(c),
{
    let n: u32 = c as u32 + 32;
    let l: u8 = n as u8;
    l as char
}

/// Whether `a` and `b` are equal ignoring ASCII case
/// (`str::eq_ignore_ascii_case`).
pub fn eq_ignore_ascii_case(a: &[char], b: &[char]) -> (eq: bool)
    ensures
        eq == (ascii_lowercase(a@) == ascii_lowercase(b@)),
{
    let la = to_ascii_lowercase(a);
    let lb = to_ascii_lowercase(b);
    chars_eq(la.as_slice(), lb.as_slice())
}

/// The value of the decimal digit `c`.
pub open spec fn digit_value(c: char) -> nat {
    ((c as u32) - ('0' as u32)) as nat
}

/// Whether every character of `s` is an ASCII digit.
pub open spec fn all_digits(s: Seq<char>) -> bool {
    forall|i: int| 0 <= i < s.len() ==> '0' <= #[trigger] s[i] <= '9'
}

/// The number that the digits `s` spell.
pub open spec fn digits_value(s: Seq<char>) -> nat
    decreases s.len(),
{
    if s.len() == 0 {
        0
    } else {
        digits_value(s.drop_last()) * 10 + digit_value(s.last())
    }
}

/// An unsigned decimal number as Rust's `from_str` reads it: an optional
/// `+`, then at least one digit.
pub open spec fn parse_unsigned(s: Seq<char>) -> Option<nat> {
    let d = if s.len() > 0 && s[0] == '+' {
        s.drop_first()
    } else {
        s
    };
    if d.len() > 0 && all_digits(d) {
        Some(digits_value(d))
    } else {
        None
    }
}

proof fn lemma_digits_value_grows(s: Seq<char>, k: int)
    requires
        0 <= k <= s.len(),
        all_digits(s),
    ensures
        digits_value(s.take(k)) <= digits_value(s),
    decreases s.len() - k,
{
    if k < s.len() {
        lemma_digits_value_grows(s, k + 1);
        assert(s.take(k + 1).drop_last() =~= s.take(k));
        assert(digits_value(s.take(k + 1)) == digits_value(s.take(k)) * 10 + digit_value(s[k]));
    } else {
        assert(s.take(k) =~= s);
    }
}

/// Reads an unsigned decimal number no greater than `max`.
pub fn parse_decimal(s: &[char], max: u64) -> (r: Option<u64>)
    ensures
        match r {
            Some(v) => parse_unsigned(s@) == Some(v as nat) && v <= max,
            None => match parse_unsigned(s@) {
                Some(v) => v > max,
                None => true,
            },
        },
{
    let start: usize = if s.len() > 0 && s[0] == '+' {
        1
    } else {
        0
    };
    let ghost d = if s@.len() > 0 && s@[0] == '+' {
        s@.drop_first()
    } else {
        s@
    };
    assert(d =~= s@.skip(start as int));
    if start >= s.len() {
        return None;
    }
    let mut acc: u128 = 0;
    let mut i = start;
    assert(d.take(0) =~= Seq::<char>::empty());
    while i < s.len()
        invariant
            start <= i <= s.len(),
            d == s@.skip(start as int),
            d == (if s@.len() > 0 && s@[0] == '+' {
                s@.drop_first()
            } else {
                s@
            }),
            all_digits(d.take(i - start)),
            acc == digits_value(d.take(i - start)),
            acc <= max,
        decreases s.len() - i,
    {
        let c = s[i];
        if c < '0' || c > '9' {
            assert(d[i - start] == c);
            assert(!all_digits(d));
            assert(parse_unsigned(s@) is None);
            return None;
        }
        let dv: u128 = (c as u32 - '0' as u32) as u128;
        assert(d.take(i + 1 - start).drop_last() =~= d.take(i - start));
        assert(d.take(i + 1 - start).last() == c);
        assert(digits_value(d.take(i + 1 - start)) == digits_value(d.take(i - start)) * 10
            + digit_value(c));
        acc = acc * 10 + dv;
        assert(all_digits(d.take(i + 1 - start)));
        assert(acc == digits_value(d.take(i + 1 - start)));
        if acc > max as u128 {
            proof {
                if all_digits(d) {
                    lemma_digits_value_grows(d, i + 1 - start);
                }
            }
            assert(parse_unsigned(s@) matches Some(v) ==> v > max);
            return None;
        }
        i += 1;
    }
    assert(d.take(i - start) =~= d);
    Some(acc as u64)
}

/// The decimal digit character for `d`.
pub open spec fn digit_char(d: nat) -> char {
    (('0' as u32) + d) as char
}

/// The decimal representation of `n`, as `format!("{}", n)` writes it.
pub open spec fn decimal(n: nat) -> Seq<char>
    decreases n,
{
    if n < 10 {
        seq![digit_char(n)]
    } else {
        decimal(n / 10).push(digit_char(n % 10))
    }
}

/// `decimal(q)`, or nothing for zero.
pub open spec fn decimal_prefix(q: nat) -> Seq<char> {
    if q == 0 {
        Seq::empty()
    } else {
        decimal(q)
    }
}

/// The digit character of `d < 10`.
pub fn digit_to_char(d: u64) -> (c: char)
    requires
        d < 10,
    ensures
        c == digit_char(d as nat),
{
    let b: u8 = 48u8 + d as u8;
    b as char
}

/// Writes `n` in decimal.
pub fn format_decimal(n: u64) -> (out: Vec<char>)
    ensures
        out@ == decimal(n as nat),
{
    let mut out: Vec<char> = Vec::new();
    out.push(digit_to_char(n % 10));
    let mut q = n / 10;
    assert(decimal(n as nat) =~= decimal_prefix(q as nat) + out@);
    while q > 0
        invariant
            decimal(n as nat) == decimal_prefix(q as nat) + out@,
        decreases q,
    {
        let c = digit_to_char(q % 10);
        let ghost prev = out@;
        out.insert(0, c);
        assert(out@ =~= seq![c] + prev);
        assert(decimal_prefix(q as nat) =~= decimal_prefix((q / 10) as nat) + seq![c]);
        q = q / 10;
    }
    assert(decimal_prefix(0) + out@ =~= out@);
    out
}

/// `l` without one trailing carriage return.
pub open spec fn strip_cr(l: Seq<char>) -> Seq<char> {
    if l.len() > 0 && l.last() == '\r' {
        l.drop_last()
    } else {
        l
    }
}

/// Splits the rest `s` of a text into lines, `cur` being the line read so
/// far and `acc` the lines before it.
pub open spec fn lines_acc(s: Seq<char>, cur: Seq<char>, acc: Seq<Seq<char>>) -> Seq<Seq<char>>
    decreases s.len(),
{
    if s.len() == 0 {
        if cur.len() > 0 {
            acc.push(cur)
        } else {
            acc
        }
    } else if s[0] == '\n' {
        lines_acc(s.drop_first(), Seq::empty(), acc.push(strip_cr(cur)))
    } else {
        lines_acc(s.drop_first(), cur.push(s[0]), acc)
    }
}

/// The lines of a text (`str::lines`): split at `\n`, a `\r` before the
/// `\n` dropped, no empty line after a final `\n`.
pub open spec fn lines_spec(s: Seq<char>) -> Seq<Seq<char>> {
    lines_acc(s, Seq::empty(), Seq::empty())
}

/// The contents of character vectors.
pub open spec fn views(v: Seq<Vec<char>>) -> Seq<Seq<char>> {
    v.map_values(|x: Vec<char>| x@)
}

/// The lines of `s`.
pub fn lines_of(s: &[char]) -> (ls: Vec<Vec<char>>)
    ensures
        views(ls@) == lines_spec(s@),
{
    let mut ls: Vec<Vec<char>> = Vec::new();
    let mut cur: Vec<char> = Vec::new();
    let mut i: usize = 0;
    assert(s@.skip(0) =~= s@);
    assert(views(ls@) =~= Seq::<Seq<char>>::empty());
    while i < s.len()
        invariant
            i <= s.len(),
            lines_acc(s@.skip(i as int), cur@, views(ls@)) == lines_spec(s@),
        decreases s.len() - i,
    {
        let ghost rest = s@.skip(i as int);
        assert(rest[0] == s@[i as int]);
        assert(rest.drop_first() =~= s@.skip(i + 1));
        let c = s[i];
        if c == '\n' {
            let ghost prev = views(ls@);
            let ghost cv = cur@;
            let mut line = cur;
            if line.len() > 0 && line[line.len() - 1] == '\r' {
                line.pop();
            }
            assert(line@ =~= strip_cr(cv));
            ls.push(line);
            cur = Vec::new();
            assert(views(ls@) =~= prev.push(strip_cr(cv)));
            assert(cur@ =~= Seq::<char>::empty());
        } else {
            cur.push(c);
        }
        i += 1;
    }
    if cur.len() > 0 {
        let ghost prev = views(ls@);
        let ghost cv = cur@;
        ls.push(cur);
        assert(views(ls@) =~= prev.push(cv));
    }
    ls
}

/// Splits the rest `s` at `c`, `cur` being the piece read so far.
pub open spec fn split_acc(s: Seq<char>, c: char, cur: Seq<char>, acc: Seq<Seq<char>>) -> Seq<Seq<char>>
    decreases s.len(),
{
    if s.len() == 0 {
        acc.push(cur)
    } else if s[0] == c {
        split_acc(s.drop_first(), c, Seq::empty(), acc.push(cur))
    } else {
        split_acc(s.drop_first(), c, cur.push(s[0]), acc)
    }
}

/// The pieces of `s` between occurrences of `c` (`str::split`).
pub open spec fn split_spec(s: Seq<char>, c: char) -> Seq<Seq<char>> {
    split_acc(s, c, Seq::empty(), Seq::empty())
}

/// Splits `s` at every `c`.
pub fn split_chars(s: &[char], c: char) -> (parts: Vec<Vec<char>>)
    ensures
        views(parts@) == split_spec(s@, c),
{
    let mut parts: Vec<Vec<char>> = Vec::new();
    let mut cur: Vec<char> = Vec::new();
    let mut i: usize = 0;
    assert(s@.skip(0) =~= s@);
    assert(views(parts@) =~= Seq::<Seq<char>>::empty());
    while i < s.len()
        invariant
            i <= s.len(),
            split_acc(s@.skip(i as int), c, cur@, views(parts@)) == split_spec(s@, c),
        decreases s.len() - i,
    {
        let ghost rest = s@.skip(i as int);
        assert(rest[0] == s@[i as int]);
        assert(rest.drop_first() =~= s@.skip(i + 1));
        if s[i] == c {
            let ghost prev = views(parts@);
            let ghost cv = cur@;
            parts.push(cur);
            cur = Vec::new();
            assert(views(parts@) =~= prev.push(cv));
            assert(cur@ =~= Seq::<char>::empty());
        } else {
            cur.push(s[i]);
        }
        i += 1;
    }
    let ghost prev = views(parts@);
    let ghost cv = cur@;
    parts.push(cur);
    assert(views(parts@) =~= prev.push(cv));
    parts
}

/// `s` with every `from` replaced by `to`.
pub open spec fn replace_char_spec(s: Seq<char>, from: char, to: char) -> Seq<char> {
    s.map_values(|x: char| if x == from {
        to
    } else {
        x
    })
}

/// Replaces every `from` in `s` by `to`.
pub fn replace_char(s: &[char], from: char, to: char) -> (out: Vec<char>)
    ensures
        out@ == replace_char_spec(s@, from, to),
{
    let mut out: Vec<char> = Vec::new();
    let mut i: usize = 0;
    while i < s.len()
        invariant
            i <= s.len(),
            out@ == replace_char_spec(s@.take(i as int), from, to),
        decreases s.len() - i,
    {
        out.push(if s[i] == from {
            to
        } else {
            s[i]
        });
        assert(out@ =~= replace_char_spec(s@.take(i + 1), from, to));
        i += 1;
    }
    assert(s@.take(s.len() as int) =~= s@);
    out
}

/// `base` joined with `part` as a Unix path (`Path::join`): an absolute
/// `part` replaces `base`; otherwise one `/` separates them unless `base`
/// is empty or already ends with one. Paths are always written with `/`,
/// which Windows accepts as a separator too.
pub open spec fn path_join(base: Seq<char>, part: Seq<char>) -> Seq<char> {
    if part.len() > 0 && part[0] == '/' {
        part
    } else if base.len() == 0 {
        part
    } else if base.last() == '/' {
        base + part
    } else {
        base + seq!['/'] + part
    }
}

/// Joins two paths.
pub fn join_path(base: &[char], part: &[char]) -> (out: Vec<char>)
    ensures
        out@ == path_join(base@, part@),
{
    if part.len() > 0 && part[0] == '/' {
        return copy_chars(part);
    }
    let mut out = copy_chars(base);
    if base.len() > 0 && base[base.len() - 1] != '/' {
        out.push('/');
    }
    push_all(&mut out, part);
    assert(out@ =~= path_join(base@, part@));
    out
}

/// Joins a path and a literal part.
pub fn join_path_str(base: &[char], part: &str) -> (out: Vec<char>)
    ensures
        out@ == path_join(base@, part@),
{
    let p = chars_of(part);
    join_path(base, p.as_slice())
}

/// The number of bytes of `c` in UTF-8.
pub open spec fn utf8_width(c: char) -> nat {
    let n = c as u32;
    if n < 0x80 {
        1
    } else if n < 0x800 {
        2
    } else if n < 0x10000 {
        3
    } else {
        4
    }
}

/// The number of bytes of `s` in UTF-8.
pub open spec fn utf8_len(s: Seq<char>) -> nat
    decreases s.len(),
{
    if s.len() == 0 {
        0
    } else {
        utf8_width(s[0]) + utf8_len(s.drop_first())
    }
}

/// The prefix of `s` that takes exactly `n` bytes in UTF-8, if one does.
pub open spec fn byte_prefix(s: Seq<char>, n: int) -> Option<Seq<char>>
    decreases s.len(),
{
    if n == 0 {
        Some(Seq::empty())
    } else if n < 0 || s.len() == 0 {
        None
    } else {
        match byte_prefix(s.drop_first(), n - utf8_width(s[0])) {
            Some(t) => Some(seq![s[0]] + t),
            None => None,
        }
    }
}

/// The number of bytes of `c` in UTF-8.
pub fn char_utf8_width(c: char) -> (w: u64)
    ensures
        w == utf8_width(c),
{
    let n = c as u32;
    if n < 0x80 {
        1
    } else if n < 0x800 {
        2
    } else if n < 0x10000 {
        3
    } else {
        4
    }
}

/// The prefix of `s` of exactly `n` bytes.
pub fn take_bytes(s: &[char], n: u128) -> (r: Option<Vec<char>>)
    ensures
        r.deep_view() == byte_prefix(s@, n as int),
{
    let mut out: Vec<char> = Vec::new();
    let mut left = n;
    let mut i: usize = 0;
    assert(s@.skip(0) =~= s@);
    while left > 0 && i < s.len()
        invariant
            i <= s.len(),
            left <= n,
            byte_prefix(s@, n as int) == match byte_prefix(s@.skip(i as int), left as int) {
                Some(t) => Some(out@ + t),
                None => None,
            },
        decreases s.len() - i,
    {
        let w = char_utf8_width(s[i]);
        let ghost rest = s@.skip(i as int);
        assert(rest[0] == s@[i as int]);
        assert(rest.drop_first() =~= s@.skip(i + 1));
        let w = w as u128;
        if w > left {
            return None;
        }
        proof {
            match byte_prefix(rest.drop_first(), left - w) {
                Some(t) => {
                    assert(out@ + (seq![s@[i as int]] + t) =~= out@.push(s@[i as int]) + t);
                },
                None => {},
            }
        }
        out.push(s[i]);
        left = left - w;
        i += 1;
    }
    if left > 0 {
        return None;
    }
    assert(out@ + Seq::<char>::empty() =~= out@);
    assert(out.deep_view() =~= out@);
    Some(out)
}

/// The number of bytes of `s` in UTF-8, when it fits in a `u64`.
pub fn chars_utf8_len(s: &[char]) -> (n: u128)
    ensures
        n == utf8_len(s@),
{
    let mut total: u128 = 0;
    let mut i = s.len();
    assert(s@.skip(i as int) =~= Seq::<char>::empty());
    while i > 0
        invariant
            i <= s.len(),
            total == utf8_len(s@.skip(i as int)),
            total <= 4 * (s.len() - i),
        decreases i,
    {
        let w = char_utf8_width(s[i - 1]);
        assert(s@.skip(i - 1).drop_first() =~= s@.skip(i as int));
        assert(s@.skip(i - 1)[0] == s@[i - 1]);
        total = total + w as u128;
        i -= 1;
    }
    assert(s@.skip(0) =~= s@);
    total
}

/// `s` with every occurrence of `pat` replaced by `rep`, matches taken
/// left to right without overlap (`str::replace` with a non-empty pattern).
pub open spec fn replace_all(s: Seq<char>, pat: Seq<char>, rep: Seq<char>) -> Seq<char>
    decreases s.len(),
{
    if pat.len() == 0 || s.len() < pat.len() {
        s
    } else if s.take(pat.len() as int) == pat {
        rep + replace_all(s.skip(pat.len() as int), pat, rep)
    } else {
        seq![s[0]] + replace_all(s.drop_first(), pat, rep)
    }
}

/// Whether `pat` occurs in `s` at position `i`.
pub fn matches_at(s: &[char], i: usize, pat: &[char]) -> (b: bool)
    requires
        i <= s.len(),
    ensures
        b == (s@.len() - i >= pat@.len() && s@.skip(i as int).take(pat@.len() as int) == pat@),
{
    if s.len() - i < pat.len() {
        return false;
    }
    let mut k: usize = 0;
    while k < pat.len()
        invariant
            i + pat.len() <= s.len(),
            k <= pat.len(),
            forall|j: int| 0 <= j < k ==> s@[i + j] == pat@[j],
        decreases pat.len() - k,
    {
        if s[i + k] != pat[k] {
            assert(s@.skip(i as int).take(pat@.len() as int)[k as int] == s@[i + k]);
            return false;
        }
        k += 1;
    }
    assert(s@.skip(i as int).take(pat@.len() as int) =~= pat@);
    true
}

/// Replaces every occurrence of `pat` in `s` by `rep`.
pub fn replace_seq(s: &[char], pat: &[char], rep: &[char]) -> (out: Vec<char>)
    requires
        pat@.len() > 0,
    ensures
        out@ == replace_all(s@, pat@, rep@),
{
    let mut out: Vec<char> = Vec::new();
    let mut i: usize = 0;
    assert(s@.skip(0) =~= s@);
    while i < s.len()
        invariant
            i <= s.len(),
            pat@.len() > 0,
            replace_all(s@, pat@, rep@) == out@ + replace_all(s@.skip(i as int), pat@, rep@),
        decreases s.len() - i,
    {
        let ghost rest = s@.skip(i as int);
        if matches_at(s, i, pat) {
            assert(rest.skip(pat@.len() as int) =~= s@.skip(i + pat@.len()));
            assert(out@ + (rep@ + replace_all(s@.skip(i + pat@.len()), pat@, rep@)) =~= (out@ + rep@)
                + replace_all(s@.skip(i + pat@.len()), pat@, rep@));
            push_all(&mut out, rep);
            i = i + pat.len();
        } else {
            if s.len() - i < pat.len() {
                assert(replace_all(rest, pat@, rep@) == rest);
                let tail = slice_chars(s, i, s.len());
                push_all(&mut out, tail.as_slice());
                assert(s@.subrange(i as int, s@.len() as int) =~= rest);
                assert(s@.skip(s@.len() as int) =~= Seq::<char>::empty());
                assert(replace_all(s@.skip(s@.len() as int), pat@, rep@) =~= Seq::<char>::empty());
                assert(out@ + Seq::<char>::empty() =~= out@);
                return out;
            }
            assert(rest[0] == s@[i as int]);
            assert(rest.drop_first() =~= s@.skip(i + 1));
            assert(out@ + (seq![s@[i as int]] + replace_all(s@.skip(i + 1), pat@, rep@)) =~= out@.push(
                s@[i as int],
            ) + replace_all(s@.skip(i + 1), pat@, rep@));
            out.push(s[i]);
            i = i + 1;
        }
    }
    assert(s@.skip(i as int) =~= Seq::<char>::empty());
    assert(out@ + Seq::<char>::empty() =~= out@);
    out
}

/// Whether `pat` occurs somewhere in `s`.
pub open spec fn contains_seq(s: Seq<char>, pat: Seq<char>) -> bool {
    exists|i: int| 0 <= i && i + pat.len() <= s.len() && #[trigger] s.subrange(i, i + pat.len()) == pat
}

/// Whether `pat` occurs somewhere in `s`.
pub fn contains_chars(s: &[char], pat: &[char]) -> (b: bool)
    ensures
        b == contains_seq(s@, pat@),
{
    if pat.len() == 0 {
        assert(s@.subrange(0, 0 + pat@.len() as int) =~= pat@);
        return true;
    }
    if pat.len() > s.len() {
        return false;
    }
    let last = s.len() - pat.len();
    let mut i: usize = 0;
    while i <= last
        invariant
            last == s@.len() - pat@.len(),
            last < usize::MAX,
            i <= last + 1,
            forall|j: int| 0 <= j < i && j + pat@.len() <= s@.len() ==> #[trigger] s@.subrange(j, j + pat@.len()) != pat@,
        decreases last + 1 - i,
    {
        assert(s@.subrange(i as int, i + pat@.len()) =~= s@.skip(i as int).take(pat@.len() as int));
        if matches_at(s, i, pat) {
            return true;
        }
        i += 1;
    }
    false
}

/// The lower-case hexadecimal digit for `d < 16`.
pub open spec fn hex_char(d: nat) -> char {
    if d < 10 {
        digit_char(d)
    } else {
        (('a' as u32) + (d - 10)) as char
    }
}

/// The last `width` hexadecimal digits of `n`, zero-padded.
pub open spec fn hex_digits(n: nat, width: nat) -> Seq<char>
    decreases width,
{
    if width == 0 {
        Seq::empty()
    } else {
        hex_digits(n / 16, (width - 1) as nat).push(hex_char(n % 16))
    }
}

fn hex_digit(d: u128) -> (c: char)
    requires
        d < 16,
    ensures
        c == hex_char(d as nat),
{
    let b: u8 = if d < 10 {
        48u8 + d as u8
    } else {
        87u8 + d as u8
    };
    b as char
}

/// Writes the last `width` hexadecimal digits of `n`, zero-padded.
pub fn format_hex(n: u128, width: usize) -> (out: Vec<char>)
    ensures
        out@ == hex_digits(n as nat, width as nat),
{
    let mut out: Vec<char> = Vec::new();
    let mut q = n;
    let mut k: usize = 0;
    while k < width
        invariant
            k <= width,
            hex_digits(n as nat, width as nat) == hex_digits(q as nat, (width - k) as nat) + out@,
        decreases width - k,
    {
        let c = hex_digit(q % 16);
        let ghost prev = out@;
        out.insert(0, c);
        assert(out@ =~= seq![c] + prev);
        assert(hex_digits(q as nat, (width - k) as nat) =~= hex_digits((q / 16) as nat, (width - k - 1) as nat)
            + seq![c]);
        q = q / 16;
        k += 1;
    }
    assert(hex_digits(q as nat, 0) + out@ =~= out@);
    out
}

/// Splits the rest `s` into maximal runs of non-white-space characters.
pub open spec fn words_acc(s: Seq<char>, cur: Seq<char>, acc: Seq<Seq<char>>) -> Seq<Seq<char>>
    decreases s.len(),
{
    if s.len() == 0 {
        if cur.len() > 0 {
            acc.push(cur)
        } else {
            acc
        }
    } else if is_ws(s[0]) {
        if cur.len() > 0 {
            words_acc(s.drop_first(), Seq::empty(), acc.push(cur))
        } else {
            words_acc(s.drop_first(), Seq::empty(), acc)
        }
    } else {
        words_acc(s.drop_first(), cur.push(s[0]), acc)
    }
}

/// The white-space separated words of `s` (`str::split_whitespace`).
pub open spec fn words(s: Seq<char>) -> Seq<Seq<char>> {
    words_acc(s, Seq::empty(), Seq::empty())
}

/// The white-space separated words of `s`.
pub fn split_words(s: &[char]) -> (ws: Vec<Vec<char>>)
    ensures
        views(ws@) == words(s@),
{
    let mut ws: Vec<Vec<char>> = Vec::new();
    let mut cur: Vec<char> = Vec::new();
    let mut i: usize = 0;
    assert(s@.skip(0) =~= s@);
    assert(views(ws@) =~= Seq::<Seq<char>>::empty());
    while i < s.len()
        invariant
            i <= s.len(),
            words_acc(s@.skip(i as int), cur@, views(ws@)) == words(s@),
        decreases s.len() - i,
    {
        let ghost rest = s@.skip(i as int);
        assert(rest[0] == s@[i as int]);
        assert(rest.drop_first() =~= s@.skip(i + 1));
        if is_whitespace(s[i]) {
            if cur.len() > 0 {
                let ghost prev = views(ws@);
                let ghost cv = cur@;
                ws.push(cur);
                assert(views(ws@) =~= prev.push(cv));
            }
            cur = Vec::new();
            assert(cur@ =~= Seq::<char>::empty());
        } else {
            cur.push(s[i]);
        }
        i += 1;
    }
    if cur.len() > 0 {
        let ghost prev = views(ws@);
        let ghost cv = cur@;
        ws.push(cur);
        assert(views(ws@) =~= prev.push(cv));
    }
    ws
}

/// Pieces joined with `sep` between them (`[..].join(sep)`).
pub open spec fn join_with(parts: Seq<Seq<char>>, sep: Seq<char>) -> Seq<char>
    decreases parts.len(),
{
    if parts.len() == 0 {
        Seq::empty()
    } else if parts.len() == 1 {
        parts[0]
    } else {
        join_with(parts.drop_last(), sep) + sep + parts.last()
    }
}

/// Joins pieces with `sep` between them.
pub fn join_chars(parts: &Vec<Vec<char>>, sep: &[char]) -> (out: Vec<char>)
    ensures
        out@ == join_with(views(parts@), sep@),
{
    let ghost pv = views(parts@);
    let mut out: Vec<char> = Vec::new();
    let mut i: usize = 0;
    assert(pv.take(0) =~= Seq::<Seq<char>>::empty());
    while i < parts.len()
        invariant
            i <= parts.len(),
            pv == views(parts@),
            out@ == join_with(pv.take(i as int), sep@),
        decreases parts.len() - i,
    {
        assert(pv.take(i + 1).drop_last() =~= pv.take(i as int));
        assert(pv.take(i + 1).last() == parts@[i as int]@);
        if i > 0 {
            push_all(&mut out, sep);
        } else {
            assert(pv.take(1) =~= seq![pv[0]]);
        }
        push_all(&mut out, parts[i].as_slice());
        assert(out@ =~= join_with(pv.take(i + 1), sep@));
        i += 1;
    }
    assert(pv.take(parts.len() as int) =~= pv);
    out
}

} // verus!
