use vstd::prelude::*;

use crate::color::RGB;

verus! {

/// White space as `str::trim` understands it (Unicode `White_Space`).
pub open spec fn is_space(c: char) -> bool {
    let u = c as u32;
    ||| u == 0x20
    ||| 0x09 <= u <= 0x0D
    ||| u == 0x85
    ||| u == 0xA0
    ||| u == 0x1680
    ||| 0x2000 <= u <= 0x200A
    ||| u == 0x2028
    ||| u == 0x2029
    ||| u == 0x202F
    ||| u == 0x205F
    ||| u == 0x3000
}

pub open spec fn trim_start(s: Seq<char>) -> Seq<char>
    decreases s.len(),
{
    if s.len() > 0 && is_space(s[0]) {
        trim_start(s.drop_first())
    } else {
        s
    }
}

pub open spec fn trim_end(s: Seq<char>) -> Seq<char>
    decreases s.len(),
{
    if s.len() > 0 && is_space(s.last()) {
        trim_end(s.drop_last())
    } else {
        s
    }
}

/// `s` without its leading and trailing white space.
pub open spec fn trim(s: Seq<char>) -> Seq<char> {
    trim_end(trim_start(s))
}

pub open spec fn is_digit(c: char) -> bool {
    0x30 <= (c as u32) <= 0x39
}

pub open spec fn digit_of(c: char) -> int {
    (c as u32) - 0x30
}

pub open spec fn all_digits(s: Seq<char>) -> bool {
    forall|i: int| 0 <= i < s.len() ==> is_digit(#[trigger] s[i])
}

/// The number that a string of decimal digits denotes.
pub open spec fn decimal(s: Seq<char>) -> int
    decreases s.len(),
{
    if s.len() == 0 {
        0
    } else {
        10 * decimal(s.drop_last()) + digit_of(s.last())
    }
}

/// A non-empty run of decimal digits and its value.
pub open spec fn magnitude(s: Seq<char>) -> Option<int> {
    if s.len() > 0 && all_digits(s) {
        Some(decimal(s))
    } else {
        None
    }
}

/// An unsigned decimal integer: an optional `+`, then digits.
pub open spec fn unsigned_value(s: Seq<char>) -> Option<int> {
    if s.len() > 0 && s[0] == '+' {
        magnitude(s.drop_first())
    } else {
        magnitude(s)
    }
}

/// A signed decimal integer: an optional `+` or `-`, then digits.
pub open spec fn signed_value(s: Seq<char>) -> Option<int> {
    if s.len() > 0 && s[0] == '-' {
        match magnitude(s.drop_first()) {
            Some(m) => Some(-m),
            None => None,
        }
    } else {
        unsigned_value(s)
    }
}

/// `v` if it lies in `lo..=hi`.
pub open spec fn bounded(v: Option<int>, lo: int, hi: int) -> Option<int> {
    match v {
        Some(x) => if lo <= x <= hi {
            Some(x)
        } else {
            None
        },
        None => None,
    }
}

/// The fields of `s` between commas; a string without a comma is one field.
pub open spec fn split_commas(s: Seq<char>) -> Seq<Seq<char>>
    decreases s.len(),
{
    if s.len() == 0 {
        seq![Seq::empty()]
    } else {
        let f = split_commas(s.drop_last());
        if s.last() == ',' {
            f.push(Seq::empty())
        } else {
            f.update(f.len() - 1, f.last().push(s.last()))
        }
    }
}

/// One field: trimmed, then read as an integer in `lo..=hi`.
pub open spec fn field_value(f: Seq<char>, signed: bool, lo: int, hi: int) -> Option<int> {
    let t = trim(f);
    bounded(
        if signed {
            signed_value(t)
        } else {
            unsigned_value(t)
        },
        lo,
        hi,
    )
}

/// All comma-separated fields of `s` as integers, when every one reads.
pub open spec fn fields_value(s: Seq<char>, signed: bool, lo: int, hi: int) -> Option<Seq<int>> {
    let fs = split_commas(s);
    if forall|j: int| 0 <= j < fs.len() ==> (#[trigger] field_value(fs[j], signed, lo, hi)) is Some {
        Some(Seq::new(fs.len(), |j: int| field_value(fs[j], signed, lo, hi)->0))
    } else {
        None
    }
}

pub proof fn lemma_split_nonempty(s: Seq<char>)
    ensures
        split_commas(s).len() >= 1,
    decreases s.len(),
{
    if s.len() > 0 {
        lemma_split_nonempty(s.drop_last());
    }
}

proof fn lemma_decimal_grows(s: Seq<char>, k: int)
    requires
        0 <= k <= s.len(),
        all_digits(s),
    ensures
        decimal(s.take(k)) <= decimal(s),
        0 <= decimal(s),
    decreases s.len(),
{
    if s.len() > 0 {
        let p = s.drop_last();
        assert(all_digits(p)) by {
            assert forall|i: int| 0 <= i < p.len() implies is_digit(#[trigger] p[i]) by {
                assert(p[i] == s[i]);
            }
        }
        assert(is_digit(s[s.len() - 1]));
        if k < s.len() {
            lemma_decimal_grows(p, k);
            assert(p.take(k) =~= s.take(k));
        } else {
            lemma_decimal_grows(p, 0);
            assert(s.take(k) =~= s);
        }
    }
}

proof fn lemma_unsigned_nonneg(s: Seq<char>)
    ensures
        magnitude(s) is Some ==> magnitude(s)->0 >= 0,
        unsigned_value(s) is Some ==> unsigned_value(s)->0 >= 0,
{
    if all_digits(s) {
        lemma_decimal_grows(s, 0);
    }
    if s.len() > 0 && all_digits(s.drop_first()) {
        lemma_decimal_grows(s.drop_first(), 0);
    }
}

/// Copies the characters of `s` into a vector.
pub fn chars_of(s: &str) -> (v: Vec<char>)
    ensures
        v@ == s@,
{
    let mut v: Vec<char> = Vec::new();
    for c in it: s.chars()
        invariant
            v@ == it.seq().take(it.index() as int),
    {
        v.push(c);
    }
    v
}

pub fn is_space_char(c: char) -> (b: bool)
    ensures
        b == is_space(c),
{
    let u = c as u32;
    u == 0x20 || (0x09 <= u && u <= 0x0D) || u == 0x85 || u == 0xA0 || u == 0x1680 || (0x2000
        <= u && u <= 0x200A) || u == 0x2028 || u == 0x2029 || u == 0x202F || u == 0x205F || u
        == 0x3000
}

/// The bounds of `v[lo..hi]` once white space is trimmed from both ends.
fn trim_bounds(v: &Vec<char>, lo: usize, hi: usize) -> (r: (usize, usize))
    requires
        lo <= hi <= v.len(),
    ensures
        lo <= r.0 <= r.1 <= hi,
        v@.subrange(r.0 as int, r.1 as int) == trim(v@.subrange(lo as int, hi as int)),
{
    let mut a = lo;
    while a < hi && is_space_char(v[a])
        invariant
            lo <= a <= hi <= v.len(),
            trim_start(v@.subrange(lo as int, hi as int)) == trim_start(
                v@.subrange(a as int, hi as int),
            ),
        decreases hi - a,
    {
        assert(v@.subrange(a as int, hi as int).drop_first() =~= v@.subrange(
            a + 1,
            hi as int,
        ));
        a = a + 1;
    }
    assert(trim_start(v@.subrange(a as int, hi as int)) == v@.subrange(a as int, hi as int));
    let mut b = hi;
    while b > a && is_space_char(v[b - 1])
        invariant
            lo <= a <= b <= hi <= v.len(),
            trim_end(v@.subrange(a as int, hi as int)) == trim_end(
                v@.subrange(a as int, b as int),
            ),
        decreases b - a,
    {
        assert(v@.subrange(a as int, b as int).drop_last() =~= v@.subrange(
            a as int,
            b - 1,
        ));
        b = b - 1;
    }
    (a, b)
}

/// Reads `v[lo..hi]` as a run of decimal digits whose value is at most `limit`.
fn magnitude_at(v: &Vec<char>, lo: usize, hi: usize, limit: u64) -> (r: Option<u64>)
    requires
        lo <= hi <= v.len(),
    ensures
        r == (match bounded(magnitude(v@.subrange(lo as int, hi as int)), 0, limit as int) {
            Some(m) => Some(m as u64),
            None => None,
        }),
{
    if lo == hi {
        return None;
    }
    let ghost s = v@.subrange(lo as int, hi as int);
    let mut acc: u64 = 0;
    let mut i = lo;
    while i < hi
        invariant
            lo <= i <= hi <= v.len(),
            s == v@.subrange(lo as int, hi as int),
            lo < hi,
            all_digits(s.take(i - lo)),
            acc == decimal(s.take(i - lo)),
            acc <= limit,
        decreases hi - i,
    {
        let c = v[i];
        let ghost k = i - lo;
        assert(s[k] == c);
        if !((c as u32) >= 0x30 && (c as u32) <= 0x39) {
            assert(!all_digits(s));
            return None;
        }
        let d = (c as u32 - 0x30) as u64;
        assert(s.take(k + 1).drop_last() =~= s.take(k));
        assert(s.take(k + 1).last() == c);
        assert(all_digits(s.take(k + 1))) by {
            assert forall|j: int| 0 <= j < k + 1 implies is_digit(#[trigger] s.take(k + 1)[j]) by {
                if j < k {
                    assert(s.take(k + 1)[j] == s.take(k)[j]);
                }
            }
        }
        if d > limit || acc > (limit - d) / 10 {
            proof {
                assert(decimal(s.take(k + 1)) > limit);
                if all_digits(s) {
                    lemma_decimal_grows(s, k + 1);
                }
            }
            return None;
        }
        acc = acc * 10 + d;
        i = i + 1;
    }
    assert(s.take(hi - lo) =~= s);
    Some(acc)
}

/// Reads `v[lo..hi]` as an unsigned integer (optional `+`) of at most `limit`.
fn unsigned_at(v: &Vec<char>, lo: usize, hi: usize, limit: u64) -> (r: Option<u64>)
    requires
        lo <= hi <= v.len(),
    ensures
        r == (match bounded(unsigned_value(v@.subrange(lo as int, hi as int)), 0, limit as int) {
            Some(m) => Some(m as u64),
            None => None,
        }),
{
    if lo < hi && v[lo] == '+' {
        assert(v@.subrange(lo as int, hi as int).drop_first() =~= v@.subrange(
            lo + 1,
            hi as int,
        ));
        magnitude_at(v, lo + 1, hi, limit)
    } else {
        magnitude_at(v, lo, hi, limit)
    }
}

/// Reads `v[lo..hi]` as an integer in `lo_v..=hi_v`, with a sign if `signed`.
fn integer_at(v: &Vec<char>, lo: usize, hi: usize, signed: bool, lo_v: i64, hi_v: i64) -> (r:
    Option<i64>)
    requires
        lo <= hi <= v.len(),
        lo_v <= 0 <= hi_v,
    ensures
        r == (match bounded(
            if signed {
                signed_value(v@.subrange(lo as int, hi as int))
            } else {
                unsigned_value(v@.subrange(lo as int, hi as int))
            },
            lo_v as int,
            hi_v as int,
        ) {
            Some(m) => Some(m as i64),
            None => None,
        }),
{
    let ghost s = v@.subrange(lo as int, hi as int);
    proof {
        lemma_unsigned_nonneg(s);
        if s.len() > 0 {
            lemma_unsigned_nonneg(s.drop_first());
        }
    }
    if signed && lo < hi && v[lo] == '-' {
        assert(s.drop_first() =~= v@.subrange(lo + 1, hi as int));
        let lim: u64 = if lo_v == i64::MIN {
            0x8000_0000_0000_0000u64
        } else {
            (-lo_v) as u64
        };
        match magnitude_at(v, lo + 1, hi, lim) {
            Some(m) => {
                if m == 0x8000_0000_0000_0000u64 {
                    Some(i64::MIN)
                } else {
                    Some(-(m as i64))
                }
            },
            None => {
                None
            },
        }
    } else {
        match unsigned_at(v, lo, hi, hi_v as u64) {
            Some(m) => Some(m as i64),
            None => None,
        }
    }
}

/// Reads every comma-separated field of `s`, trimmed, as an integer in
/// `lo_v..=hi_v` (with an optional `-` when `signed`); `None` as soon as
/// one field does not read.
fn parse_fields(s: &str, signed: bool, lo_v: i64, hi_v: i64) -> (r: Option<Vec<i64>>)
    requires
        lo_v <= 0 <= hi_v,
    ensures
        r is Some <==> fields_value(s@, signed, lo_v as int, hi_v as int) is Some,
        r is Some ==> r->0@.len() == fields_value(s@, signed, lo_v as int, hi_v as int)->0.len(),
        r is Some ==> forall|j: int|
            0 <= j < r->0@.len() ==> r->0@[j] == fields_value(
                s@,
                signed,
                lo_v as int,
                hi_v as int,
            )->0[j],
{
    let v = chars_of(s);
    let mut out: Vec<i64> = Vec::new();
    let mut ok = true;
    let mut start: usize = 0;
    let mut i: usize = 0;
    let ghost mut done: Seq<Seq<char>> = Seq::empty();
    assert(v@.take(0) =~= Seq::<char>::empty());
    assert(v@.subrange(0, 0) =~= Seq::<char>::empty());
    while i < v.len()
        invariant
            0 <= start <= i <= v.len(),
            v@ == s@,
            lo_v <= 0 <= hi_v,
            split_commas(v@.take(i as int)) == done.push(v@.subrange(start as int, i as int)),
            ok ==> out@.len() == done.len(),
            ok ==> forall|j: int|
                0 <= j < done.len() ==> (#[trigger] field_value(
                    done[j],
                    signed,
                    lo_v as int,
                    hi_v as int,
                )) is Some && out@[j] == field_value(done[j], signed, lo_v as int, hi_v as int)->0,
            !ok ==> exists|j: int|
                0 <= j < done.len() && (#[trigger] field_value(
                    done[j],
                    signed,
                    lo_v as int,
                    hi_v as int,
                )) is None,
        decreases v.len() - i,
    {
        let ghost before = done;
        assert(v@.take(i + 1).drop_last() =~= v@.take(i as int));
        assert(v@.take(i + 1).last() == v@[i as int]);
        if v[i] == ',' {
            let ghost field = v@.subrange(start as int, i as int);
            if ok {
                let (a, b) = trim_bounds(&v, start, i);
                match integer_at(&v, a, b, signed, lo_v, hi_v) {
                    Some(x) => {
                        out.push(x);
                    },
                    None => {
                        ok = false;
                    },
                }
            }
            proof {
                done = before.push(field);
                assert(field_value(done[before.len() as int], signed, lo_v as int, hi_v as int)
                    == field_value(field, signed, lo_v as int, hi_v as int));
                if !ok {
                    if field_value(field, signed, lo_v as int, hi_v as int) is Some {
                        let j = choose|j: int|
                            0 <= j < before.len() && (#[trigger] field_value(
                                before[j],
                                signed,
                                lo_v as int,
                                hi_v as int,
                            )) is None;
                        assert(done[j] == before[j]);
                    }
                } else {
                    assert forall|j: int| 0 <= j < done.len() implies (#[trigger] field_value(
                        done[j],
                        signed,
                        lo_v as int,
                        hi_v as int,
                    )) is Some && out@[j] == field_value(
                        done[j],
                        signed,
                        lo_v as int,
                        hi_v as int,
                    )->0 by {
                        if j < before.len() {
                            assert(done[j] == before[j]);
                        }
                    }
                }
            }
            start = i + 1;
            assert(v@.subrange(start as int, (i + 1) as int) =~= Seq::<char>::empty());
        } else {
            assert(v@.subrange(start as int, i + 1) =~= v@.subrange(start as int, i as int).push(
                v@[i as int],
            ));
        }
        i = i + 1;
    }
    assert(v@.take(v.len() as int) =~= v@);
    let ghost fs = split_commas(s@);
    let ghost last = v@.subrange(start as int, v.len() as int);
    assert(fs == done.push(last));
    assert(fs[done.len() as int] == last);
    if !ok {
        proof {
            let j = choose|j: int|
                0 <= j < done.len() && (#[trigger] field_value(
                    done[j],
                    signed,
                    lo_v as int,
                    hi_v as int,
                )) is None;
            assert(fs[j] == done[j]);
        }
        return None;
    }
    let (a, b) = trim_bounds(&v, start, v.len());
    match integer_at(&v, a, b, signed, lo_v, hi_v) {
        Some(x) => {
            out.push(x);
            proof {
                assert forall|j: int| 0 <= j < fs.len() implies (#[trigger] field_value(
                    fs[j],
                    signed,
                    lo_v as int,
                    hi_v as int,
                )) is Some by {
                    if j < done.len() {
                        assert(fs[j] == done[j]);
                    }
                }
                assert forall|j: int| 0 <= j < out@.len() implies out@[j] == fields_value(
                    s@,
                    signed,
                    lo_v as int,
                    hi_v as int,
                )->0[j] by {
                    if j < done.len() {
                        assert(fs[j] == done[j]);
                    }
                }
            }
            Some(out)
        },
        None => {
            assert(field_value(fs[done.len() as int], signed, lo_v as int, hi_v as int) is None);
            None
        },
    }
}

/// A color written `r,g,b`: at least three fields, each `0..=255`; the
/// first three are the channels.
pub open spec fn rgb_of(s: Seq<char>) -> Option<RGB> {
    match fields_value(s, false, 0, 255) {
        Some(f) => if f.len() >= 3 {
            Some(RGB { r: f[0] as u8, g: f[1] as u8, b: f[2] as u8 })
        } else {
            None
        },
        None => None,
    }
}

/// A screen point written `x,y`: at least two fields, each an `i32`.
pub open spec fn point_of(s: Seq<char>) -> Option<(i32, i32)> {
    match fields_value(s, true, i32::MIN as int, i32::MAX as int) {
        Some(f) => if f.len() >= 2 {
            Some((f[0] as i32, f[1] as i32))
        } else {
            None
        },
        None => None,
    }
}

/// A memory offset: an unsigned integer that fits in `usize`, written with
/// no surrounding white space.
pub open spec fn offset_of(s: Seq<char>) -> Option<usize> {
    match bounded(unsigned_value(s), 0, usize::MAX as int) {
        Some(m) => Some(m as usize),
        None => None,
    }
}

pub fn parse_rgb(s: &str) -> (r: Option<RGB>)
    ensures
        r == rgb_of(s@),
{
    match parse_fields(s, false, 0, 255) {
        Some(f) => {
            if f.len() >= 3 {
                Some(RGB { r: f[0] as u8, g: f[1] as u8, b: f[2] as u8 })
            } else {
                None
            }
        },
        None => None,
    }
}

pub fn parse_coordinate(s: &str) -> (r: Option<(i32, i32)>)
    ensures
        r == point_of(s@),
{
    match parse_fields(s, true, i32::MIN as i64, i32::MAX as i64) {
        Some(f) => {
            if f.len() >= 2 {
                Some((f[0] as i32, f[1] as i32))
            } else {
                None
            }
        },
        None => None,
    }
}

pub fn parse_offset(s: &str) -> (r: Option<usize>)
    ensures
        r == offset_of(s@),
{
    let v = chars_of(s);
    assert(v@.subrange(0, v.len() as int) =~= s@);
    match unsigned_at(&v, 0, v.len(), usize::MAX as u64) {
        Some(m) => Some(m as usize),
        None => None,
    }
}

} // verus!
