//! Character-level text utilities used by the parser and the caches.
use vstd::prelude::*;
use vstd::std_specs::iter::IteratorSpec;
use vstd::utf8::is_ascii_chars;
use crate::helpers::ascii_lower;

verus! {

/// Turns a string slice into the vector of its characters.
pub fn chars_of(s: &str) -> (r: Vec<char>)
    ensures
        r@ == s@,
{
    let mut it = s.chars();
    let mut out: Vec<char> = Vec::new();
    loop
        invariant
            it.obeys_prophetic_iter_laws(),
            it.decrease() is Some,
            out@ + it.remaining() == s@,
        ensures
            out@ == s@,
        decreases it.decrease()->0,
    {
        match it.next() {
            Some(c) => {
                out.push(c);
            },
            None => {
                assert(out@ + it.remaining() == out@);
                break ;
            },
        }
    }
    out
}

/// Relies on `FromIterator<char>` for `String`: the string made of the given
/// characters, in order.
#[verifier::external_body]
pub(crate) fn string_of(v: &[char]) -> (r: String)
    ensures
        r@ == v@,
{
    v.iter().collect()
}

/// The fields of `s` between occurrences of the delimiter `d`, as
/// `str::split` gives them: `n` delimiters give `n + 1` fields.
pub open spec fn split_spec(s: Seq<char>, d: char) -> Seq<Seq<char>>
    decreases s.len(),
{
    if s.len() == 0 {
        seq![Seq::empty()]
    } else {
        let prev = split_spec(s.drop_last(), d);
        if s.last() == d {
            prev.push(Seq::empty())
        } else {
            prev.update(prev.len() - 1, prev.last().push(s.last()))
        }
    }
}

/// The views of a sequence of character vectors.
pub open spec fn views(v: Seq<Vec<char>>) -> Seq<Seq<char>> {
    v.map_values(|x: Vec<char>| x@)
}

/// The parts joined with `sep` between consecutive parts, as `[T]::join` does.
pub open spec fn join_spec(parts: Seq<Seq<char>>, sep: Seq<char>) -> Seq<char>
    decreases parts.len(),
{
    if parts.len() == 0 {
        Seq::empty()
    } else if parts.len() == 1 {
        parts[0]
    } else {
        join_spec(parts.drop_last(), sep) + sep + parts.last()
    }
}

/// Splits `s` on every occurrence of `d`.
pub fn split_chars(s: &Vec<char>, d: char) -> (r: Vec<Vec<char>>)
    ensures
        views(r@) == split_spec(s@, d),
        r@.len() >= 1,
{
    let mut fields: Vec<Vec<char>> = Vec::new();
    let mut cur: Vec<char> = Vec::new();
    let mut i: usize = 0;
    while i < s.len()
        invariant
            i <= s.len(),
            views(fields@).push(cur@) == split_spec(s@.take(i as int), d),
        decreases s.len() - i,
    {
        let c = s[i];
        assert(s@.take(i + 1).drop_last() == s@.take(i as int));
        assert(s@.take(i + 1).last() == c);
        let ghost before = views(fields@).push(cur@);
        if c == d {
            let done = cur;
            cur = Vec::new();
            fields.push(done);
            assert(views(fields@).push(cur@) =~= before.push(Seq::empty()));
        } else {
            cur.push(c);
            assert(views(fields@).push(cur@) =~= before.update(
                before.len() - 1,
                before.last().push(c),
            ));
        }
        i = i + 1;
    }
    assert(s@.take(s.len() as int) == s@);
    fields.push(cur);
    assert(views(fields@) =~= split_spec(s@, d));
    fields
}

/// Joins `parts[start..]` with `sep` between consecutive parts.
pub fn join_from(parts: &Vec<Vec<char>>, start: usize, sep: char) -> (r: Vec<char>)
    requires
        start <= parts.len(),
    ensures
        r@ == join_spec(views(parts@).subrange(start as int, parts.len() as int), seq![sep]),
{
    let mut out: Vec<char> = Vec::new();
    let mut i: usize = start;
    while i < parts.len()
        invariant
            start <= i <= parts.len(),
            out@ == join_spec(views(parts@).subrange(start as int, i as int), seq![sep]),
        decreases parts.len() - i,
    {
        let ghost before = views(parts@).subrange(start as int, i as int);
        let ghost after = views(parts@).subrange(start as int, i + 1);
        assert(after.drop_last() =~= before);
        assert(after.last() == parts@[i as int]@);
        if i > start {
            out.push(sep);
        }
        let part = &parts[i];
        let mut j: usize = 0;
        let ghost base = out@;
        while j < part.len()
            invariant
                j <= part.len(),
                out@ == base + part@.take(j as int),
            decreases part.len() - j,
        {
            out.push(part[j]);
            assert(part@.take(j + 1) =~= part@.take(j as int).push(part@[j as int]));
            j = j + 1;
        }
        assert(part@.take(part.len() as int) =~= part@);
        i = i + 1;
        proof {
            if after.len() == 1 {
                assert(base =~= Seq::<char>::empty());
                assert(out@ =~= part@);
            } else {
                assert(out@ =~= join_spec(before, seq![sep]) + seq![sep] + part@);
            }
        }
    }
    out
}

/// `s` is a non-empty run of ASCII decimal digits.
pub open spec fn is_digits(s: Seq<char>) -> bool {
    s.len() > 0 && forall|i: int| 0 <= i < s.len() ==> '0' <= #[trigger] s[i] && s[i] <= '9'
}

/// The value of a run of decimal digits.
pub open spec fn digits_value(s: Seq<char>) -> nat
    decreases s.len(),
{
    if s.len() == 0 {
        0
    } else {
        digits_value(s.drop_last()) * 10 + ((s.last() as int - '0' as int) as nat)
    }
}

/// What `str::parse::<u32>` accepts: an optional `+` followed by decimal
/// digits whose value fits in 32 bits.
pub open spec fn parse_u32_spec(s: Seq<char>) -> Option<u32> {
    let d = if s.len() > 0 && s[0] == '+' {
        s.drop_first()
    } else {
        s
    };
    if is_digits(d) && digits_value(d) <= u32::MAX {
        Some(digits_value(d) as u32)
    } else {
        None
    }
}

proof fn lemma_digits_grow(s: Seq<char>, i: int, j: int)
    requires
        0 <= i <= j <= s.len(),
    ensures
        digits_value(s.take(i)) <= digits_value(s.take(j)),
    decreases j - i,
{
    if i < j {
        lemma_digits_grow(s, i, j - 1);
        assert(s.take(j).drop_last() =~= s.take(j - 1));
    }
}

/// Reads an unsigned 32-bit decimal number, as `str::parse::<u32>` does.
pub fn parse_u32(s: &Vec<char>) -> (r: Option<u32>)
    ensures
        r == parse_u32_spec(s@),
{
    let start: usize = if s.len() > 0 && s[0] == '+' {
        1
    } else {
        0
    };
    let ghost d = if s@.len() > 0 && s@[0] == '+' {
        s@.drop_first()
    } else {
        s@
    };
    assert(d =~= s@.subrange(start as int, s@.len() as int));
    if start >= s.len() {
        return None;
    }
    let mut acc: u64 = 0;
    let mut i: usize = start;
    while i < s.len()
        invariant
            start <= i <= s.len(),
            d == s@.subrange(start as int, s@.len() as int),
            parse_u32_spec(s@) == (if is_digits(d) && digits_value(d) <= u32::MAX {
                Some(digits_value(d) as u32)
            } else {
                None
            }),
            acc <= u32::MAX,
            acc == digits_value(d.take(i - start)),
            forall|k: int| 0 <= k < i - start ==> '0' <= #[trigger] d[k] && d[k] <= '9',
        decreases s.len() - i,
    {
        let c = s[i];
        assert(d[i - start] == c);
        assert(d.take(i - start + 1).drop_last() =~= d.take(i - start));
        if c < '0' || c > '9' {
            assert(!is_digits(d));
            return None;
        }
        let v = acc * 10 + ((c as u32) - ('0' as u32)) as u64;
        if v > u32::MAX as u64 {
            proof {
                if is_digits(d) {
                    lemma_digits_grow(d, i - start + 1, d.len() as int);
                    assert(d.take(d.len() as int) =~= d);
                    assert(digits_value(d.take(i - start + 1)) == v);
                }
            }
            return None;
        }
        acc = v;
        i = i + 1;
    }
    assert(d.take(d.len() as int) =~= d);
    Some(acc as u32)
}

/// What `str::to_lowercase` returns: the result depends on the characters
/// alone.
pub uninterp spec fn lower_of(s: Seq<char>) -> Seq<char>;

/// Relies on `str::to_lowercase`: the Unicode lower case of the text. Each
/// character maps to at least one, so an empty text stays empty and any
/// other stays non-empty; ASCII text maps character for character to its
/// ASCII lower case.
#[verifier::external_body]
pub(crate) fn lowercase(s: &str) -> (r: String)
    ensures
        r@ == lower_of(s@),
        s@.len() == 0 <==> r@.len() == 0,
        is_ascii_chars(s@) ==> r@ == s@.map_values(|c: char| ascii_lower(c)),
{
    s.to_lowercase()
}

/// At most the first `n` characters of `s`.
pub open spec fn truncate(s: Seq<char>, n: nat) -> Seq<char> {
    if s.len() > n {
        s.take(n as int)
    } else {
        s
    }
}

/// Appends the characters of `s` to `out`.
pub fn push_str(out: &mut Vec<char>, s: &str)
    ensures
        final(out)@ == old(out)@ + s@,
{
    let mut cs = chars_of(s);
    out.append(&mut cs);
}

/// The string made of `v` cut to at most `n` characters.
pub fn string_truncated(v: Vec<char>, n: usize) -> (r: String)
    ensures
        r@ == truncate(v@, n as nat),
{
    let mut v = v;
    v.truncate(n);
    string_of(v.as_slice())
}

/// The texts of a sequence of strings.
pub open spec fn strings_view(v: Seq<String>) -> Seq<Seq<char>> {
    v.map_values(|x: String| x@)
}

/// The characters of each string.
pub fn strings_chars(v: &Vec<String>) -> (r: Vec<Vec<char>>)
    ensures
        views(r@) == strings_view(v@),
{
    let mut out: Vec<Vec<char>> = Vec::new();
    let mut i: usize = 0;
    while i < v.len()
        invariant
            i <= v.len(),
            views(out@) =~= strings_view(v@).take(i as int),
        decreases v.len() - i,
    {
        let c = chars_of(v[i].as_str());
        let ghost prev = out@;
        out.push(c);
        assert(views(out@) =~= views(prev).push(c@));
        assert(strings_view(v@).take(i + 1) =~= strings_view(v@).take(i as int).push(v@[i as int]@));
        i = i + 1;
    }
    assert(strings_view(v@).take(v.len() as int) =~= strings_view(v@));
    out
}

/// One string for each character vector.
pub fn strings_of(v: &Vec<Vec<char>>, from: usize) -> (r: Vec<String>)
    requires
        from <= v.len(),
    ensures
        strings_view(r@) == views(v@).subrange(from as int, v.len() as int),
{
    let mut out: Vec<String> = Vec::new();
    let mut i: usize = from;
    while i < v.len()
        invariant
            from <= i <= v.len(),
            strings_view(out@) =~= views(v@).subrange(from as int, i as int),
        decreases v.len() - i,
    {
        let t = string_of(v[i].as_slice());
        let ghost prev = out@;
        out.push(t);
        assert(strings_view(out@) =~= strings_view(prev).push(t@));
        assert(views(v@).subrange(from as int, i + 1) =~= views(v@).subrange(from as int, i as int).push(v@[i as int]@));
        i = i + 1;
    }
    out
}

/// The characters `v[from..to]`.
pub fn sub_chars(v: &Vec<char>, from: usize, to: usize) -> (r: Vec<char>)
    requires
        from <= to <= v.len(),
    ensures
        r@ == v@.subrange(from as int, to as int),
{
    let mut out: Vec<char> = Vec::new();
    let mut i: usize = from;
    while i < to
        invariant
            from <= i <= to <= v.len(),
            out@ =~= v@.subrange(from as int, i as int),
        decreases to - i,
    {
        out.push(v[i]);
        i = i + 1;
    }
    out
}

/// Whether `v` holds `c`.
pub fn has_char(v: &Vec<char>, c: char) -> (r: bool)
    ensures
        r == v@.contains(c),
{
    let mut i: usize = 0;
    while i < v.len()
        invariant
            i <= v.len(),
            forall|j: int| 0 <= j < i ==> v@[j] != c,
        decreases v.len() - i,
    {
        if v[i] == c {
            assert(v@[i as int] == c);
            return true;
        }
        i = i + 1;
    }
    false
}

/// Whether `v` and `w` hold the same characters.
pub fn same_chars(v: &Vec<char>, w: &[char]) -> (r: bool)
    ensures
        r == (v@ == w@),
{
    if v.len() != w.len() {
        return false;
    }
    let mut i: usize = 0;
    while i < v.len()
        invariant
            i <= v.len(),
            v@.len() == w@.len(),
            forall|j: int| 0 <= j < i ==> v@[j] == w@[j],
        decreases v.len() - i,
    {
        if v[i] != w[i] {
            return false;
        }
        i = i + 1;
    }
    assert(v@ =~= w@);
    true
}

/// The decimal digits of `n`, most significant first.
pub open spec fn decimal_spec(n: nat) -> Seq<char>
    decreases n,
{
    if n < 10 {
        seq![(n + '0' as nat) as char]
    } else {
        decimal_spec(n / 10).push(((n % 10) + '0' as nat) as char)
    }
}

/// Writes `n` in decimal.
pub fn decimal(n: u64) -> (r: Vec<char>)
    ensures
        r@ == decimal_spec(n as nat),
    decreases n,
{
    let d = ((n % 10) as u8 + 48u8) as char;
    if n < 10 {
        let mut v: Vec<char> = Vec::new();
        v.push(d);
        assert(v@ =~= decimal_spec(n as nat));
        v
    } else {
        let mut v = decimal(n / 10);
        v.push(d);
        v
    }
}

/// The first character of `e`, or nothing when `e` is empty.
pub open spec fn head(e: Seq<char>) -> Seq<char> {
    if e.len() > 0 {
        e.take(1)
    } else {
        Seq::empty()
    }
}

/// `e` without its first character.
pub open spec fn tail(e: Seq<char>) -> Seq<char> {
    if e.len() > 0 {
        e.drop_first()
    } else {
        Seq::empty()
    }
}

} // verus!
