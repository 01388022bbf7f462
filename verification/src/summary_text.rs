//! Rendering of summary lines: decimal numbers and the `{count}` placeholder.
use vstd::prelude::*;
use vstd::string::StrSliceExecFns;
use vstd::string::StringExecFns;

verus! {

/// The characters of the `{count}` placeholder.
pub open spec fn placeholder() -> Seq<char> {
    seq!['{', 'c', 'o', 'u', 'n', 't', '}']
}

/// The placeholder starts at index `i` of `t`.
pub open spec fn placeholder_at(t: Seq<char>, i: int) -> bool {
    &&& 0 <= i
    &&& i + 7 <= t.len()
    &&& t.subrange(i, i + 7) == placeholder()
}

/// The first index at or after `k` where the placeholder starts, if any.
pub open spec fn first_placeholder_from(t: Seq<char>, k: int) -> Option<int>
    decreases t.len() - k,
{
    if k < 0 || k + 7 > t.len() {
        None
    } else if placeholder_at(t, k) {
        Some(k)
    } else {
        first_placeholder_from(t, k + 1)
    }
}

/// The first index where the placeholder starts, if any.
pub open spec fn first_placeholder(t: Seq<char>) -> Option<int> {
    first_placeholder_from(t, 0)
}

/// The character of the decimal digit `d` (`d < 10`).
pub open spec fn digit_char(d: nat) -> char {
    (48 + d) as char
}

/// The decimal representation of `n`, most significant digit first.
pub open spec fn decimal(n: nat) -> Seq<char>
    decreases n,
{
    if n < 10 {
        seq![digit_char(n)]
    } else {
        decimal(n / 10).push(digit_char(n % 10))
    }
}

/// The number that a string of decimal digits stands for.
pub open spec fn digits_value(s: Seq<char>) -> nat
    decreases s.len(),
{
    if s.len() == 0 {
        0
    } else {
        digits_value(s.drop_last()) * 10 + ((s.last() as int - 48) as nat)
    }
}

/// `c` is one of the characters `0` to `9`.
pub open spec fn is_digit(c: char) -> bool {
    48 <= c as int <= 57
}

/// The template `t` with its first `{count}` placeholder replaced by the decimal
/// representation of `n`; `t` itself when it holds no placeholder.
pub open spec fn fill_count(t: Seq<char>, n: nat) -> Seq<char> {
    match first_placeholder(t) {
        Some(i) => t.take(i) + decimal(n) + t.skip(i + 7),
        None => t,
    }
}

/// The search for the placeholder finds its first occurrence, or reports that
/// there is none.
pub proof fn lemma_first_placeholder_from(t: Seq<char>, k: int)
    requires
        0 <= k,
    ensures
        match first_placeholder_from(t, k) {
            Some(i) => k <= i && placeholder_at(t, i) && forall|j: int|
                k <= j < i ==> !placeholder_at(t, j),
            None => forall|j: int| k <= j ==> !placeholder_at(t, j),
        },
    decreases t.len() - k,
{
    if k + 7 > t.len() {
    } else if placeholder_at(t, k) {
    } else {
        lemma_first_placeholder_from(t, k + 1);
        assert forall|j: int| k <= j && #[trigger] placeholder_at(t, j) implies j != k by {}
    }
}

/// `fill_count` replaces exactly the first occurrence of the placeholder and
/// keeps everything around it; a template without placeholder is left as it is.
pub proof fn law_fill_count_replaces_first_placeholder(t: Seq<char>, n: nat)
    ensures
        (forall|j: int| !placeholder_at(t, j)) ==> fill_count(t, n) == t,
        forall|i: int|
            #![trigger placeholder_at(t, i)]
            placeholder_at(t, i) && (forall|j: int| 0 <= j < i ==> !placeholder_at(t, j))
                ==> fill_count(t, n) == t.take(i) + decimal(n) + t.skip(i + 7),
{
    lemma_first_placeholder_from(t, 0);
    assert forall|i: int|
        #![trigger placeholder_at(t, i)]
        placeholder_at(t, i) && (forall|j: int| 0 <= j < i ==> !placeholder_at(t, j))
            implies fill_count(t, n) == t.take(i) + decimal(n) + t.skip(i + 7) by {
        match first_placeholder(t) {
            Some(f) => {
                if f < i {
                    assert(!placeholder_at(t, f));
                }
                if i < f {
                    assert(!placeholder_at(t, i));
                }
            },
            None => {
                assert(!placeholder_at(t, i));
            },
        }
    }
}

/// The decimal representation of `n` is made of digits only, has no leading
/// zero (unless `n` is zero), and reads back as `n`.
pub proof fn law_decimal_round_trip(n: nat)
    ensures
        decimal(n).len() >= 1,
        forall|k: int| 0 <= k < decimal(n).len() ==> is_digit(#[trigger] decimal(n)[k]),
        n > 0 ==> decimal(n)[0] != '0',
        digits_value(decimal(n)) == n,
    decreases n,
{
    if n < 10 {
        assert(decimal(n) == seq![digit_char(n)]);
        assert(seq![digit_char(n)].drop_last() =~= Seq::<char>::empty());
        assert(digit_char(n) as int == 48 + n);
        assert(digits_value(Seq::<char>::empty()) == 0);
        assert(digits_value(decimal(n)) == digits_value(Seq::<char>::empty()) * 10 + n);
    } else {
        law_decimal_round_trip(n / 10);
        let d = decimal(n / 10);
        assert(decimal(n) == d.push(digit_char(n % 10)));
        assert(d.push(digit_char(n % 10)).drop_last() =~= d);
        assert(digit_char(n % 10) as int == 48 + n % 10);
        assert forall|k: int| 0 <= k < decimal(n).len() implies is_digit(#[trigger] decimal(n)[k]) by {
            if k < d.len() {
                assert(decimal(n)[k] == d[k]);
            }
        }
        assert(decimal(n)[0] == d[0]);
        assert(digits_value(decimal(n)) == digits_value(d) * 10 + n % 10);
        assert((n / 10) * 10 + n % 10 == n) by (nonlinear_arith);
    }
}

/// The one-character string of the decimal digit `d`.
fn digit_str(d: usize) -> (s: &'static str)
    requires
        d < 10,
    ensures
        s@ == seq![digit_char(d as nat)],
{
    proof {
        reveal_strlit("0");
        reveal_strlit("1");
        reveal_strlit("2");
        reveal_strlit("3");
        reveal_strlit("4");
        reveal_strlit("5");
        reveal_strlit("6");
        reveal_strlit("7");
        reveal_strlit("8");
        reveal_strlit("9");
    }
    match d {
        0 => "0",
        1 => "1",
        2 => "2",
        3 => "3",
        4 => "4",
        5 => "5",
        6 => "6",
        7 => "7",
        8 => "8",
        _ => "9",
    }
}

/// Appends the decimal representation of `n` to `out`.
pub fn push_decimal(out: &mut String, n: usize)
    ensures
        final(out)@ == old(out)@ + decimal(n as nat),
    decreases n,
{
    if n >= 10 {
        push_decimal(out, n / 10);
    }
    out.append(digit_str(n % 10));
    proof {
        if n >= 10 {
            assert(decimal(n as nat) == decimal((n / 10) as nat).push(digit_char((n % 10) as nat)));
        }
    }
}

/// The decimal representation of `n` as a string.
pub fn decimal_string(n: usize) -> (s: String)
    ensures
        s@ == decimal(n as nat),
{
    let mut s = String::new();
    push_decimal(&mut s, n);
    s
}

/// Whether the placeholder starts at index `i` of `t`.
fn placeholder_starts_at(t: &str, len: usize, i: usize) -> (b: bool)
    requires
        len == t@.len(),
        i + 7 <= len,
    ensures
        b == placeholder_at(t@, i as int),
{
    let b = t.get_char(i) == '{' && t.get_char(i + 1) == 'c' && t.get_char(i + 2) == 'o'
        && t.get_char(i + 3) == 'u' && t.get_char(i + 4) == 'n' && t.get_char(i + 5) == 't'
        && t.get_char(i + 6) == '}';
    proof {
        if b {
            assert(t@.subrange(i as int, i + 7) =~= placeholder());
        } else {
            if placeholder_at(t@, i as int) {
                let p = t@.subrange(i as int, i + 7);
                assert(p[0] == '{' && p[1] == 'c' && p[2] == 'o' && p[3] == 'u');
                assert(p[4] == 'n' && p[5] == 't' && p[6] == '}');
            }
        }
    }
    b
}

/// Renders `template` with its first `{count}` placeholder replaced by `count`.
pub fn fill_count_placeholder(template: &str, count: usize) -> (s: String)
    ensures
        s@ == fill_count(template@, count as nat),
{
    let len = template.unicode_len();
    let mut i: usize = 0;
    while len >= 7 && i <= len - 7
        invariant
            len == template@.len(),
            i <= len,
            first_placeholder(template@) == first_placeholder_from(template@, i as int),
        decreases len - i,
    {
        if placeholder_starts_at(template, len, i) {
            let mut out = String::new();
            out.append(template.substring_char(0, i));
            push_decimal(&mut out, count);
            out.append(template.substring_char(i + 7, len));
            proof {
                assert(template@.subrange(0, i as int) =~= template@.take(i as int));
                assert(template@.subrange(i + 7, len as int) =~= template@.skip(i + 7));
            }
            return out;
        }
        i = i + 1;
    }
    String::from_str(template)
}

} // verus!
