//! Text helpers with exact contracts: decimal numbers, joining, ASCII comparison.
use vstd::prelude::*;
use vstd::utf8::*;

verus! {

/// The decimal digit `d`.
pub open spec fn digit(d: nat) -> char {
    (48 + d) as char
}

/// `n` in decimal, without leading zeros.
pub open spec fn decimal(n: nat) -> Seq<char>
    decreases n,
{
    if n < 10 {
        seq![digit(n)]
    } else {
        decimal(n / 10).push(digit(n % 10))
    }
}

/// `n` in decimal, padded with one zero to two places where it has only one.
pub open spec fn decimal_02(n: nat) -> Seq<char> {
    if n < 10 {
        seq![digit(0), digit(n)]
    } else {
        decimal(n)
    }
}

/// The texts of a list of strings.
pub open spec fn texts(list: Seq<String>) -> Seq<Seq<char>> {
    list.map_values(|s: String| s@)
}

/// The parts in order with `sep` between each two of them.
pub open spec fn joined(parts: Seq<Seq<char>>, sep: Seq<char>) -> Seq<char>
    decreases parts.len(),
{
    if parts.len() == 0 {
        Seq::empty()
    } else if parts.len() == 1 {
        parts[0]
    } else {
        parts[0] + sep + joined(parts.drop_first(), sep)
    }
}

/// The code of `c`, an ASCII capital taken as its small letter.
pub open spec fn ascii_lower(c: char) -> int {
    if 'A' <= c && c <= 'Z' {
        c as int + 32
    } else {
        c as int
    }
}

/// Whether two texts agree but for the case of their ASCII letters.
pub open spec fn same_ignoring_ascii_case(a: Seq<char>, b: Seq<char>) -> bool {
    &&& a.len() == b.len()
    &&& forall|i: int| 0 <= i < a.len() ==> ascii_lower(#[trigger] a[i]) == ascii_lower(b[i])
}

/// Whether `s` ends with `suffix`.
pub open spec fn has_suffix(s: Seq<char>, suffix: Seq<char>) -> bool {
    &&& s.len() >= suffix.len()
    &&& s.subrange(s.len() - suffix.len(), s.len() as int) == suffix
}

fn digit_text(d: u32) -> (r: &'static str)
    requires
        d < 10,
    ensures
        r@ == seq![digit(d as nat)],
{
    proof {
        reveal_strlit("0");
        reveal_strlit("1");
        reveal_strlit("2");
        reveal_strlit("3");
        reveal_strlit("4");
        reveal_strlit("5");
        reveal_strlit("6");
        reveal_strlit("7");
        reveal_strlit("8");
        reveal_strlit("9");
    }
    let r = if d == 0 {
        "0"
    } else if d == 1 {
        "1"
    } else if d == 2 {
        "2"
    } else if d == 3 {
        "3"
    } else if d == 4 {
        "4"
    } else if d == 5 {
        "5"
    } else if d == 6 {
        "6"
    } else if d == 7 {
        "7"
    } else if d == 8 {
        "8"
    } else {
        "9"
    };
    assert(r@ =~= seq![digit(d as nat)]);
    r
}

/// Appends `n` in decimal to `out`.
pub fn push_decimal(out: &mut String, n: u32)
    ensures
        final(out)@ == old(out)@ + decimal(n as nat),
    decreases n,
{
    if n >= 10 {
        push_decimal(out, n / 10);
    }
    out.append(digit_text(n % 10));
    assert(out@ =~= old(out)@ + decimal(n as nat));
}

/// Appends `n` in decimal to `out`, in two places at least.
pub fn push_decimal_02(out: &mut String, n: u32)
    ensures
        final(out)@ == old(out)@ + decimal_02(n as nat),
{
    if n < 10 {
        out.append(digit_text(0));
        out.append(digit_text(n));
    } else {
        push_decimal(out, n);
    }
    assert(out@ =~= old(out)@ + decimal_02(n as nat));
}

/// Whether two texts are equal.
pub fn same_text(a: &str, b: &str) -> (r: bool)
    ensures
        r == (a@ == b@),
{
    let x = a.as_bytes();
    let y = b.as_bytes();
    proof {
        encode_utf8_decode_utf8(a@);
        encode_utf8_decode_utf8(b@);
    }
    if x.len() != y.len() {
        return false;
    }
    let mut i: usize = 0;
    while i < x.len()
        invariant
            i <= x@.len(),
            x@.len() == y@.len(),
            x@ == encode_utf8(a@),
            y@ == encode_utf8(b@),
            forall|j: int| 0 <= j < i ==> x@[j] == y@[j],
        decreases x@.len() - i,
    {
        if x[i] != y[i] {
            return false;
        }
        i = i + 1;
    }
    assert(x@ =~= y@);
    true
}

/// Whether `s` ends with `suffix`.
pub fn ends_with(s: &str, suffix: &str) -> (r: bool)
    ensures
        r == has_suffix(s@, suffix@),
{
    let n = s.unicode_len();
    let k = suffix.unicode_len();
    if n < k {
        return false;
    }
    same_text(s.substring_char(n - k, n), suffix)
}

fn lower_code(c: char) -> (r: u32)
    ensures
        r == ascii_lower(c),
{
    if 'A' <= c && c <= 'Z' {
        c as u32 + 32
    } else {
        c as u32
    }
}

/// Whether two texts agree but for the case of their ASCII letters.
pub fn eq_ignore_ascii_case(a: &str, b: &str) -> (r: bool)
    ensures
        r == same_ignoring_ascii_case(a@, b@),
{
    let n = a.unicode_len();
    if n != b.unicode_len() {
        return false;
    }
    let mut i: usize = 0;
    while i < n
        invariant
            i <= n,
            n == a@.len(),
            n == b@.len(),
            forall|j: int| 0 <= j < i ==> ascii_lower(#[trigger] a@[j]) == ascii_lower(b@[j]),
        decreases n - i,
    {
        if lower_code(a.get_char(i)) != lower_code(b.get_char(i)) {
            assert(ascii_lower(a@[i as int]) != ascii_lower(b@[i as int]));
            return false;
        }
        i = i + 1;
    }
    true
}

/// The strings of `list` in order with `sep` between each two of them.
pub fn join(list: &Vec<String>, sep: &str) -> (r: String)
    ensures
        r@ == joined(texts(list@), sep@),
{
    let ghost parts = texts(list@);
    let mut out = String::new();
    let mut i: usize = 0;
    while i < list.len()
        invariant
            i <= list@.len(),
            parts == texts(list@),
            i == 0 ==> out@ == Seq::<char>::empty(),
            0 < i < list@.len() ==> joined(parts, sep@) == out@ + sep@ + joined(
                parts.skip(i as int),
                sep@,
            ),
            i == list@.len() ==> joined(parts, sep@) == out@,
        decreases list@.len() - i,
    {
        let ghost rest = parts.skip(i as int);
        let ghost before = out@;
        proof {
            assert(rest[0] == list@[i as int]@);
            assert(rest.drop_first() =~= parts.skip(i + 1));
            if i == 0 {
                assert(rest =~= parts);
            }
        }
        if i > 0 {
            out.append(sep);
        }
        out.append(list[i].as_str());
        assert(joined(parts, sep@) =~= (if i == 0 {
            Seq::empty()
        } else {
            before + sep@
        }) + joined(rest, sep@));
        i = i + 1;
        proof {
            if i < list@.len() {
                assert(joined(parts, sep@) =~= out@ + sep@ + joined(parts.skip(i as int), sep@));
            } else {
                assert(joined(parts, sep@) =~= out@);
            }
        }
    }
    out
}

/// The number that a text of decimal digits spells.
pub open spec fn spelled(s: Seq<char>) -> int
    decreases s.len(),
{
    if s.len() == 0 {
        0
    } else {
        spelled(s.drop_last()) * 10 + (s.last() as int - 48)
    }
}

/// A number in decimal is a text of digits that spells that number, with no zero in front
/// but for zero itself.
pub proof fn decimals_read_back(n: nat)
    ensures
        spelled(decimal(n)) == n,
        decimal(n).len() > 0,
        forall|i: int| 0 <= i < decimal(n).len() ==> '0' <= #[trigger] decimal(n)[i] <= '9',
        decimal(n)[0] == '0' ==> decimal(n).len() == 1,
    decreases n,
{
    if n < 10 {
        let s = decimal(n);
        assert(s.drop_last() =~= Seq::empty());
        assert(spelled(s.drop_last()) == 0);
    } else {
        decimals_read_back(n / 10);
        let s = decimal(n);
        assert(s.drop_last() =~= decimal(n / 10));
        assert(s[0] == decimal(n / 10)[0]);
        if decimal(n / 10)[0] == '0' {
            let d = decimal(n / 10);
            assert(d.len() == 1);
            assert(d.drop_last() =~= Seq::empty());
            assert(spelled(d.drop_last()) == 0);
            assert(spelled(d) == 0);
        }
    }
}

/// In two places a number spells itself too: numbers below 100 take exactly two digits,
/// larger ones as many as they have.
pub proof fn two_place_decimals_read_back(n: nat)
    ensures
        spelled(decimal_02(n)) == n,
        n < 100 ==> decimal_02(n).len() == 2,
        n >= 100 ==> decimal_02(n).len() >= 3 && decimal_02(n)[0] != '0',
        forall|i: int| 0 <= i < decimal_02(n).len() ==> '0' <= #[trigger] decimal_02(n)[i] <= '9',
{
    decimals_read_back(n);
    let s = decimal_02(n);
    if n < 10 {
        assert(s.drop_last().drop_last() =~= Seq::empty());
        assert(spelled(s.drop_last().drop_last()) == 0);
        assert(s.drop_last().last() == s[0]);
        assert(spelled(s.drop_last()) == 0);
        assert(s.last() == s[1]);
    } else {
        decimals_read_back(n / 10);
        assert(s.len() == decimal(n / 10).len() + 1);
        if n >= 100 {
            decimals_read_back(n / 100);
            assert(decimal(n / 10).len() == decimal((n / 10) / 10).len() + 1);
            decimals_read_back((n / 10) / 10);
        } else {
            assert(decimal(n / 10).len() == 1);
        }
    }
}

/// Two lists joined one after the other, with a separator between them, are joined as one
/// list; a single part is joined to itself, and no part to the empty text.
pub proof fn joining_is_piecewise(a: Seq<Seq<char>>, b: Seq<Seq<char>>, sep: Seq<char>)
    ensures
        a.len() == 0 ==> joined(a, sep) == Seq::<char>::empty(),
        a.len() == 1 ==> joined(a, sep) == a[0],
        a.len() > 0 && b.len() > 0 ==> joined(a + b, sep) == joined(a, sep) + sep + joined(b, sep),
    decreases a.len(),
{
    if a.len() > 0 && b.len() > 0 {
        let rest = a.drop_first();
        assert((a + b).drop_first() =~= rest + b);
        assert((a + b)[0] == a[0]);
        if a.len() == 1 {
            assert(rest + b =~= b);
            assert(joined(a + b, sep) =~= joined(a, sep) + sep + joined(b, sep));
        } else {
            joining_is_piecewise(rest, b, sep);
            assert(joined(a + b, sep) =~= joined(a, sep) + sep + joined(b, sep));
        }
    }
}

/// A text has a suffix exactly where it is something followed by that suffix.
pub proof fn suffixes_end_texts(s: Seq<char>, suffix: Seq<char>)
    ensures
        has_suffix(s, suffix) <==> exists|front: Seq<char>| s == #[trigger] (front + suffix),
{
    if has_suffix(s, suffix) {
        let front = s.take(s.len() - suffix.len());
        assert(s =~= front + suffix);
    }
    if exists|front: Seq<char>| s == #[trigger] (front + suffix) {
        let front = choose|front: Seq<char>| s == #[trigger] (front + suffix);
        assert(s.subrange(s.len() - suffix.len(), s.len() as int) =~= suffix);
    }
}

/// Two texts agree but for ASCII case exactly where, place by place, they have the same
/// character or a capital and its small letter.
pub proof fn case_is_all_that_may_differ(a: Seq<char>, b: Seq<char>)
    ensures
        same_ignoring_ascii_case(a, b) <==> a.len() == b.len() && forall|i: int|
            0 <= i < a.len() ==> {
                ||| #[trigger] a[i] == b[i]
                ||| 'A' <= a[i] <= 'Z' && b[i] as int == a[i] as int + 32
                ||| 'A' <= b[i] <= 'Z' && a[i] as int == b[i] as int + 32
            },
{
}

/// The texts of a list are those of its strings, in order.
pub proof fn texts_follow_their_strings(list: Seq<String>)
    ensures
        texts(list).len() == list.len(),
        forall|i: int| 0 <= i < list.len() ==> #[trigger] texts(list)[i] == list[i]@,
{
}

} // verus!
