//! ASCII byte-string utilities shared by the symbol normalizer, the request
//! builders and the response parsers.

use vstd::prelude::*;

verus! {

pub open spec fn is_digit_byte(b: u8) -> bool {
    48 <= b <= 57
}

pub open spec fn digit_val(b: u8) -> int {
    b - 48
}

/// ASCII whitespace recognized by `trim_bytes`.
pub open spec fn is_space_byte(b: u8) -> bool {
    b == 32 || b == 9 || b == 10 || b == 13
}

/// ASCII uppercase conversion of one byte.
pub open spec fn upper_byte(b: u8) -> u8 {
    if 97 <= b <= 122 {
        (b - 32) as u8
    } else {
        b
    }
}

/// ASCII uppercase conversion of a byte string.
pub open spec fn upper_bytes(s: Seq<u8>) -> Seq<u8> {
    s.map_values(|b: u8| upper_byte(b))
}

pub open spec fn all_not_space(s: Seq<u8>) -> bool {
    forall|i: int| 0 <= i < s.len() ==> !is_space_byte(s[i])
}

pub open spec fn no_lower_byte(s: Seq<u8>) -> bool {
    forall|i: int| 0 <= i < s.len() ==> upper_byte(#[trigger] s[i]) == s[i]
}

/// ASCII lowercase conversion of one byte.
pub open spec fn lower_byte(b: u8) -> u8 {
    if 65 <= b <= 90 {
        (b + 32) as u8
    } else {
        b
    }
}

/// ASCII lowercase conversion of a byte string.
pub open spec fn lower_bytes(s: Seq<u8>) -> Seq<u8> {
    s.map_values(|b: u8| lower_byte(b))
}

/// Lowercases a byte string (ASCII letters only).
pub fn lower_vec(s: &[u8]) -> (r: Vec<u8>)
    ensures
        r@ == lower_bytes(s@),
{
    let mut out: Vec<u8> = Vec::new();
    let mut i: usize = 0;
    while i < s.len()
        invariant
            i <= s@.len(),
            out@ == lower_bytes(s@.subrange(0, i as int)),
        decreases s@.len() - i,
    {
        let b = s[i];
        if 65 <= b && b <= 90 {
            out.push(b + 32);
        } else {
            out.push(b);
        }
        assert(lower_bytes(s@.subrange(0, i + 1 as int)) =~= lower_bytes(
            s@.subrange(0, i as int),
        ).push(lower_byte(s@[i as int])));
        i = i + 1;
    }
    assert(s@.subrange(0, s@.len() as int) =~= s@);
    out
}

/// Leading whitespace removed.
pub open spec fn trim_front(s: Seq<u8>) -> Seq<u8>
    decreases s.len(),
{
    if s.len() > 0 && is_space_byte(s[0]) {
        trim_front(s.drop_first())
    } else {
        s
    }
}

/// Trailing whitespace removed.
pub open spec fn trim_back(s: Seq<u8>) -> Seq<u8>
    decreases s.len(),
{
    if s.len() > 0 && is_space_byte(s[s.len() - 1]) {
        trim_back(s.drop_last())
    } else {
        s
    }
}

/// Whitespace removed from both ends.
pub open spec fn trim_bytes(s: Seq<u8>) -> Seq<u8> {
    trim_back(trim_front(s))
}

/// Decimal digits of a natural number, most significant first.
pub open spec fn dec_digits(n: nat) -> Seq<u8>
    decreases n,
{
    if n < 10 {
        seq![(48 + n) as u8]
    } else {
        dec_digits(n / 10).push((48 + n % 10) as u8)
    }
}

/// Text without whitespace at either end is unchanged by trimming.
pub proof fn lemma_trim_id(s: Seq<u8>)
    requires
        all_not_space(s),
    ensures
        trim_bytes(s) == s,
{
    if s.len() > 0 {
        assert(!is_space_byte(s[0]));
        assert(!is_space_byte(s[s.len() - 1]));
    }
}

/// Text without lowercase letters is unchanged by uppercasing.
pub proof fn lemma_upper_id(s: Seq<u8>)
    requires
        no_lower_byte(s),
    ensures
        upper_bytes(s) == s,
{
    assert(upper_bytes(s) =~= s) by {
        assert(forall|i: int| 0 <= i < s.len() ==> upper_bytes(s)[i] == upper_byte(s[i]));
        assert(forall|i: int| 0 <= i < s.len() ==> upper_byte(s[i]) == s[i]);
    }
}

/// Uppercases a byte string (ASCII letters only).
pub fn upper_vec(s: &[u8]) -> (r: Vec<u8>)
    ensures
        r@ == upper_bytes(s@),
{
    let mut out: Vec<u8> = Vec::new();
    let mut i: usize = 0;
    while i < s.len()
        invariant
            i <= s@.len(),
            out@ == upper_bytes(s@.subrange(0, i as int)),
        decreases s@.len() - i,
    {
        let b = s[i];
        if 97 <= b && b <= 122 {
            out.push(b - 32);
        } else {
            out.push(b);
        }
        assert(upper_bytes(s@.subrange(0, i + 1 as int)) =~= upper_bytes(
            s@.subrange(0, i as int),
        ).push(upper_byte(s@[i as int])));
        i = i + 1;
    }
    assert(s@.subrange(0, s@.len() as int) =~= s@);
    out
}

proof fn lemma_trim_front_skip(s: Seq<u8>, i: int)
    requires
        0 <= i <= s.len(),
        forall|j: int| 0 <= j < i ==> is_space_byte(s[j]),
    ensures
        trim_front(s) == trim_front(s.skip(i)),
    decreases i,
{
    if i > 0 {
        assert(s.drop_first() =~= s.skip(1));
        assert(s.skip(1).skip(i - 1) =~= s.skip(i));
        lemma_trim_front_skip(s.skip(1), i - 1);
    } else {
        assert(s.skip(0) =~= s);
    }
}

proof fn lemma_trim_front_stops(s: Seq<u8>)
    requires
        s.len() == 0 || !is_space_byte(s[0]),
    ensures
        trim_front(s) == s,
{
}

proof fn lemma_trim_back_take(s: Seq<u8>, i: int)
    requires
        0 <= i <= s.len(),
        forall|j: int| i <= j < s.len() ==> is_space_byte(s[j]),
    ensures
        trim_back(s) == trim_back(s.take(i)),
    decreases s.len() - i,
{
    if i < s.len() {
        assert(s.drop_last() =~= s.take(s.len() - 1));
        lemma_trim_back_take(s.take(s.len() - 1), i);
        assert(s.take(s.len() - 1).take(i) =~= s.take(i));
    } else {
        assert(s.take(i) =~= s);
    }
}

/// Removes ASCII whitespace from both ends of a byte string.
pub fn trim_vec(s: &[u8]) -> (r: Vec<u8>)
    ensures
        r@ == trim_bytes(s@),
{
    let mut start: usize = 0;
    while start < s.len() && (s[start] == 32 || s[start] == 9 || s[start] == 10 || s[start] == 13)
        invariant
            start <= s@.len(),
            forall|j: int| 0 <= j < start ==> is_space_byte(s@[j]),
        decreases s@.len() - start,
    {
        start = start + 1;
    }
    proof {
        lemma_trim_front_skip(s@, start as int);
        lemma_trim_front_stops(s@.skip(start as int));
    }
    let ghost t = s@.skip(start as int);
    let mut end: usize = s.len();
    while end > start && (s[end - 1] == 32 || s[end - 1] == 9 || s[end - 1] == 10 || s[end - 1]
        == 13)
        invariant
            start <= end <= s@.len(),
            forall|j: int| end <= j < s@.len() ==> is_space_byte(s@[j]),
        decreases end,
    {
        end = end - 1;
    }
    proof {
        assert(forall|j: int| 0 <= j < t.len() ==> t[j] == s@[start + j]);
        lemma_trim_back_take(t, end - start);
        if end > start {
            assert(!is_space_byte(t[end - start - 1]));
            assert(t.take(end - start).drop_last() =~= t.take(end - start - 1));
        }
        assert(trim_back(t.take(end - start)) == t.take(end - start)) by {
            if end > start {
            } else {
                assert(t.take(0).len() == 0);
            }
        }
    }
    let mut out: Vec<u8> = Vec::new();
    let mut i: usize = start;
    while i < end
        invariant
            start <= i <= end <= s@.len(),
            out@ == s@.subrange(start as int, i as int),
        decreases end - i,
    {
        out.push(s[i]);
        assert(s@.subrange(start as int, i + 1 as int) =~= s@.subrange(start as int, i as int).push(
            s@[i as int],
        ));
        i = i + 1;
    }
    proof {
        assert(out@ =~= t.take(end - start));
    }
    out
}

/// Appends `src` to `dst`.
pub fn push_bytes(dst: &mut Vec<u8>, src: &[u8])
    ensures
        final(dst)@ == old(dst)@ + src@,
{
    let mut i: usize = 0;
    while i < src.len()
        invariant
            i <= src@.len(),
            dst@ == old(dst)@ + src@.subrange(0, i as int),
        decreases src@.len() - i,
    {
        dst.push(src[i]);
        assert(old(dst)@ + src@.subrange(0, i + 1 as int) =~= (old(dst)@ + src@.subrange(
            0,
            i as int,
        )).push(src@[i as int]));
        i = i + 1;
    }
    assert(src@.subrange(0, src@.len() as int) =~= src@);
}

/// Writes the decimal digits of `n` onto the end of `dst`.
pub fn push_u64(dst: &mut Vec<u8>, n: u64)
    ensures
        final(dst)@ == old(dst)@ + dec_digits(n as nat),
    decreases n,
{
    if n < 10 {
        dst.push(48 + n as u8);
        assert(old(dst)@ + dec_digits(n as nat) =~= old(dst)@.push((48 + n as nat) as u8));
    } else {
        push_u64(dst, n / 10);
        dst.push(48 + (n % 10) as u8);
        assert(old(dst)@ + dec_digits(n as nat) =~= (old(dst)@ + dec_digits((n as nat) / 10)).push(
            (48 + (n as nat) % 10) as u8,
        ));
    }
}

/// Index of the first occurrence of `b`, or the length.
pub open spec fn find_byte(s: Seq<u8>, b: u8) -> int
    decreases s.len(),
{
    if s.len() == 0 {
        0
    } else if s[0] == b {
        0
    } else {
        1 + find_byte(s.drop_first(), b)
    }
}

/// The fields of `s` split at every occurrence of `sep`.
pub open spec fn split_byte(s: Seq<u8>, sep: u8) -> Seq<Seq<u8>>
    decreases s.len(),
{
    let i = find_byte(s, sep);
    if 0 <= i < s.len() {
        seq![s.take(i)] + split_byte(s.skip(i + 1), sep)
    } else {
        seq![s]
    }
}

/// Locating the spec-level first occurrence from a left-to-right scan.
pub proof fn lemma_find_byte_at(s: Seq<u8>, b: u8, i: int)
    requires
        0 <= i <= s.len(),
        forall|j: int| 0 <= j < i ==> s[j] != b,
        i < s.len() ==> s[i] == b,
    ensures
        find_byte(s, b) == i,
    decreases i,
{
    if i > 0 {
        lemma_find_byte_at(s.drop_first(), b, i - 1);
    }
}

/// Splits a byte string at every occurrence of `sep`, exactly as
/// `split_byte` describes.
#[verifier::loop_isolation(false)]
pub fn split_vec(s: &[u8], sep: u8) -> (r: Vec<Vec<u8>>)
    ensures
        r@.map_values(|f: Vec<u8>| f@) == split_byte(s@, sep),
{
    let n = s.len();
    let mut out: Vec<Vec<u8>> = Vec::new();
    let mut start: usize = 0;
    let mut i: usize = 0;
    let mut cur: Vec<u8> = Vec::new();
    proof {
        assert(s@.skip(0) =~= s@);
        assert(out@.map_values(|f: Vec<u8>| f@) =~= Seq::<Seq<u8>>::empty());
        assert(Seq::<Seq<u8>>::empty() + split_byte(s@, sep) =~= split_byte(s@, sep));
        assert(cur@ =~= s@.subrange(0, 0));
    }
    while i < n
        invariant
            start <= i <= n == s@.len(),
            cur@ == s@.subrange(start as int, i as int),
            forall|j: int| start <= j < i ==> s@[j] != sep,
            out@.map_values(|f: Vec<u8>| f@) + split_byte(s@.skip(start as int), sep) == split_byte(
                s@,
                sep,
            ),
        decreases n - i,
    {
        let b = s[i];
        if b == sep {
            proof {
                let rest = s@.skip(start as int);
                assert(forall|j: int| 0 <= j < rest.len() ==> rest[j] == s@[start + j]);
                lemma_find_byte_at(rest, sep, i - start);
                assert(rest.take(i - start) =~= s@.subrange(start as int, i as int));
                assert(rest.skip(i - start + 1) =~= s@.skip(i + 1 as int));
                assert(split_byte(rest, sep) == seq![cur@] + split_byte(s@.skip(i + 1 as int), sep));
                assert((out@.map_values(|f: Vec<u8>| f@).push(cur@)) + split_byte(
                    s@.skip(i + 1 as int),
                    sep,
                ) =~= out@.map_values(|f: Vec<u8>| f@) + split_byte(rest, sep));
            }
            let ghost pre = out@.map_values(|f: Vec<u8>| f@);
            let ghost curv = cur@;
            out.push(cur);
            assert(out@.map_values(|f: Vec<u8>| f@) =~= pre.push(curv));
            cur = Vec::new();
            start = i + 1;
            assert(cur@ =~= s@.subrange(start as int, start as int));
        } else {
            cur.push(b);
            assert(s@.subrange(start as int, i + 1 as int) =~= s@.subrange(
                start as int,
                i as int,
            ).push(s@[i as int]));
        }
        i = i + 1;
    }
    proof {
        let rest = s@.skip(start as int);
        assert(forall|j: int| 0 <= j < rest.len() ==> rest[j] == s@[start + j]);
        lemma_find_byte_at(rest, sep, n - start);
        assert(split_byte(rest, sep) == seq![rest]);
        assert(rest =~= cur@);
    }
    let ghost pre = out@.map_values(|f: Vec<u8>| f@);
    let ghost curv = cur@;
    out.push(cur);
    assert(out@.map_values(|f: Vec<u8>| f@) =~= pre.push(curv));
    assert(pre.push(curv) =~= pre + seq![curv]);
    assert(out@.map_values(|f: Vec<u8>| f@) =~= split_byte(s@, sep));
    out
}

/// Decimal text of a signed number: a minus sign for negatives, then the
/// digits of the magnitude.
pub open spec fn int_digits(n: int) -> Seq<u8> {
    if n < 0 {
        seq![45u8] + dec_digits((-n) as nat)
    } else {
        dec_digits(n as nat)
    }
}

/// Writes the decimal text of a signed number onto the end of `dst`.
pub fn push_i64(dst: &mut Vec<u8>, n: i64)
    requires
        n > i64::MIN,
    ensures
        final(dst)@ == old(dst)@ + int_digits(n as int),
{
    if n < 0 {
        dst.push(45);
        let m = (-n) as u64;
        push_u64(dst, m);
        assert(dst@ =~= old(dst)@ + int_digits(n as int));
    } else {
        push_u64(dst, n as u64);
    }
}

/// True when the two byte strings hold the same bytes.
pub fn bytes_eq(a: &[u8], b: &[u8]) -> (r: bool)
    ensures
        r == (a@ =~= b@),
{
    if a.len() != b.len() {
        return false;
    }
    let mut i: usize = 0;
    while i < a.len()
        invariant
            i <= a@.len(),
            a@.len() == b@.len(),
            forall|j: int| 0 <= j < i ==> a@[j] == b@[j],
        decreases a@.len() - i,
    {
        if a[i] != b[i] {
            return false;
        }
        i = i + 1;
    }
    assert(a@ =~= b@);
    true
}


} // verus!
