use vstd::prelude::*;

verus! {

/// Parts-per-million fraction, the form the price's decimals are reported
/// in.
#[derive(Clone, Copy, Debug, PartialEq, Eq, Structural)]
pub struct Permill {
    pub parts: u32,
}

impl Permill {
    /// A fraction of `parts` parts per million.
    pub fn from_parts(parts: u32) -> (r: Permill)
        ensures
            r.parts == parts,
    {
        Permill { parts }
    }
}

/// The asset record a price feed reports: an asset id, its ticker symbol,
/// and its price in dollars as a decimal numeral, all as byte strings.
#[derive(Clone, Debug, PartialEq, Eq)]
pub struct PriceInfo {
    pub id: Vec<u8>,
    pub symbol: Vec<u8>,
    pub price_usd: Vec<u8>,
}

/// Why a fetched price could not be delivered.
#[derive(Clone, Copy, Debug, PartialEq, Eq)]
pub enum Error {
    /// The request itself failed.
    HttpRequestError,
    /// The response could not be read as the expected record.
    ConvertError,
}

/// An ASCII decimal digit.
pub open spec fn is_digit(b: u8) -> bool {
    48 <= b <= 57
}

/// Every byte is an ASCII decimal digit.
pub open spec fn all_digits(s: Seq<u8>) -> bool {
    forall|i: int| 0 <= i < s.len() ==> is_digit(#[trigger] s[i])
}

/// The number an ASCII digit string denotes, most significant digit first.
pub open spec fn dec_val(s: Seq<u8>) -> int
    decreases s.len(),
{
    if s.len() == 0 {
        0
    } else {
        dec_val(s.drop_last()) * 10 + (s.last() - 48)
    }
}

/// The index of the first `.` byte, or the length if there is none.
pub open spec fn first_dot_pos(s: Seq<u8>) -> int
    decreases s.len(),
{
    if s.len() == 0 {
        0
    } else if s[0] == 46 {
        0
    } else {
        1 + first_dot_pos(s.subrange(1, s.len() as int))
    }
}

/// What parsing a price numeral yields, if anything: the digits before the
/// first dot as a whole-dollar amount, and exactly the six digits after it
/// as parts per million. Nothing is yielded when there is no dot, no digit
/// before it, fewer than six bytes after it, a non-digit in either part, or
/// a whole part beyond the 64-bit range.
pub open spec fn spec_parse_price(s: Seq<u8>) -> Option<(u64, u32)> {
    let p = first_dot_pos(s);
    if 1 <= p && p < s.len() && all_digits(s.subrange(0, p)) && dec_val(s.subrange(0, p))
        <= u64::MAX && p + 7 <= s.len() && all_digits(s.subrange(p + 1, p + 7)) {
        Some((dec_val(s.subrange(0, p)) as u64, dec_val(s.subrange(p + 1, p + 7)) as u32))
    } else {
        None
    }
}

/// The first-dot index is the one the scan finds: no dot before it, and a
/// dot at it unless it is the length.
proof fn lemma_first_dot_at(s: Seq<u8>, i: int)
    requires
        0 <= i <= s.len(),
        forall|j: int| 0 <= j < i ==> #[trigger] s[j] != 46,
        i == s.len() || s[i] == 46,
    ensures
        first_dot_pos(s) == i,
    decreases s.len(),
{
    if i > 0 {
        lemma_first_dot_at(s.subrange(1, s.len() as int), i - 1);
    }
}

/// A digit string denotes a non-negative number.
proof fn lemma_dec_val_nonneg(s: Seq<u8>)
    requires
        all_digits(s),
    ensures
        dec_val(s) >= 0,
    decreases s.len(),
{
    if s.len() > 0 {
        lemma_dec_val_nonneg(s.drop_last());
    }
}

/// Extending a digit string to the right never shrinks its value.
proof fn lemma_dec_val_grows(s: Seq<u8>, j: int)
    requires
        all_digits(s),
        0 <= j <= s.len(),
    ensures
        dec_val(s) >= dec_val(s.subrange(0, j)),
    decreases s.len(),
{
    if j == s.len() {
        assert(s.subrange(0, j) =~= s);
    } else {
        assert(s.drop_last() =~= s.subrange(0, s.len() - 1));
        lemma_dec_val_nonneg(s.drop_last());
        lemma_dec_val_grows(s.drop_last(), j);
        assert(s.drop_last().subrange(0, j) =~= s.subrange(0, j));
    }
}

/// Ten to any power is positive.
proof fn lemma_pow10_pos(n: int)
    ensures
        pow10(n) >= 1,
    decreases n,
{
    if n > 0 {
        lemma_pow10_pos(n - 1);
    }
}

/// Ten to a larger power is no smaller.
proof fn lemma_pow10_mono(a: int, b: int)
    requires
        a <= b,
    ensures
        pow10(a) <= pow10(b),
    decreases b - a,
{
    if a < b {
        lemma_pow10_mono(a, b - 1);
        lemma_pow10_pos(b - 1);
    }
}

/// A string of at most six digits denotes less than a million.
proof fn lemma_dec_val_bounded(s: Seq<u8>, bound: int)
    requires
        all_digits(s),
        s.len() <= 6,
        bound == 1000000,
    ensures
        dec_val(s) < bound,
{
    lemma_six_digit_bound(s, s.len() as int);
    lemma_pow10_mono(s.len() as int, 6);
    assert(pow10(6) == 1000000) by {
        reveal_with_fuel(pow10, 7);
    }
}

/// A digit string of length `n` denotes less than ten to the `n`, up to six
/// digits.
proof fn lemma_six_digit_bound(s: Seq<u8>, n: int)
    requires
        all_digits(s),
        s.len() == n,
        0 <= n <= 6,
    ensures
        dec_val(s) < pow10(n),
    decreases n,
{
    if n > 0 {
        lemma_six_digit_bound(s.drop_last(), n - 1);
    }
}

/// Ten to the `n`, for the handful of exponents the parser meets.
pub open spec fn pow10(n: int) -> int
    decreases n,
{
    if n <= 0 {
        1
    } else {
        10 * pow10(n - 1)
    }
}

/// Read the digits before the first dot as a 64-bit whole-dollar amount:
/// `None` where there is no digit, a non-digit, or a value beyond the
/// 64-bit range — the inputs a host-side numeral parse would reject.
fn parse_price_usd_integer(price_usd: &Vec<u8>, point_position: usize) -> (r: Option<u64>)
    requires
        point_position <= price_usd@.len(),
    ensures
        match r {
            Some(v) => 1 <= point_position && all_digits(
                price_usd@.subrange(0, point_position as int),
            ) && dec_val(price_usd@.subrange(0, point_position as int)) == v,
            None => !(1 <= point_position && all_digits(
                price_usd@.subrange(0, point_position as int),
            ) && dec_val(price_usd@.subrange(0, point_position as int)) <= u64::MAX),
        },
{
    if point_position == 0 {
        return None;
    }
    let mut acc: u64 = 0;
    let mut i: usize = 0;
    while i < point_position
        invariant
            0 <= i <= point_position <= price_usd@.len(),
            all_digits(price_usd@.subrange(0, i as int)),
            acc == dec_val(price_usd@.subrange(0, i as int)),
        decreases point_position - i,
    {
        let b: u8 = price_usd[i];
        if b < 48 || b > 57 {
            proof {
                assert(price_usd@.subrange(0, point_position as int)[i as int] == b);
            }
            return None;
        }
        let d: u64 = (b - 48) as u64;
        proof {
            assert(price_usd@.subrange(0, (i + 1) as int).drop_last() =~= price_usd@.subrange(
                0,
                i as int,
            ));
        }
        if acc > (u64::MAX - d) / 10 {
            proof {
                let upto = price_usd@.subrange(0, (i + 1) as int);
                let whole = price_usd@.subrange(0, point_position as int);
                assert(dec_val(upto) > u64::MAX);
                if all_digits(whole) {
                    assert forall|j: int| 0 <= j < upto.len() implies is_digit(
                        #[trigger] upto[j],
                    ) by {
                        assert(upto[j] == whole[j]);
                    }
                    lemma_dec_val_grows(whole, i + 1);
                    assert(whole.subrange(0, (i + 1) as int) =~= upto);
                }
            }
            return None;
        }
        acc = acc * 10 + d;
        i = i + 1;
    }
    proof {
        assert(price_usd@.subrange(0, i as int) =~= price_usd@.subrange(0, point_position as int));
    }
    Some(acc)
}

/// Read exactly the six bytes after the first dot as parts per million:
/// `None` where fewer than six follow or one of them is not a digit — the
/// inputs whose slicing or numeral parse a host would reject.
fn parse_price_usd_permil(price_usd: &Vec<u8>, point_position: usize) -> (r: Option<Permill>)
    requires
        point_position <= price_usd@.len(),
    ensures
        match r {
            Some(m) => point_position + 7 <= price_usd@.len() && all_digits(
                price_usd@.subrange(point_position + 1, point_position + 7),
            ) && dec_val(price_usd@.subrange(point_position + 1, point_position + 7)) == m.parts,
            None => !(point_position + 7 <= price_usd@.len() && all_digits(
                price_usd@.subrange(point_position + 1, point_position + 7),
            )),
        },
{
    let n: usize = price_usd.len();
    if n < 7 || point_position > n - 7 {
        return None;
    }
    let mut acc: u32 = 0;
    let mut i: usize = 0;
    while i < 6
        invariant
            0 <= i <= 6,
            n == price_usd@.len(),
            point_position + 7 <= n,
            all_digits(price_usd@.subrange(point_position + 1, point_position + 1 + i)),
            acc == dec_val(price_usd@.subrange(point_position + 1, point_position + 1 + i)),
            acc < 1000000,
        decreases 6 - i,
    {
        let b: u8 = price_usd[point_position + 1 + i];
        if b < 48 || b > 57 {
            proof {
                assert(price_usd@.subrange(point_position + 1, point_position + 7)[i as int] == b);
            }
            return None;
        }
        proof {
            let seg = price_usd@.subrange(point_position + 1, point_position + 1 + i as int);
            let upto = price_usd@.subrange(
                point_position + 1,
                point_position + 1 + (i + 1) as int,
            );
            assert(upto.drop_last() =~= seg);
            assert(upto.last() == b);
            assert forall|j: int| 0 <= j < upto.len() implies is_digit(#[trigger] upto[j]) by {
                if j < i {
                    assert(upto[j] == seg[j]);
                }
            }
            lemma_dec_val_bounded(upto, 1000000);
        }
        acc = acc * 10 + ((b - 48) as u32);
        i = i + 1;
    }
    proof {
        assert(price_usd@.subrange(point_position + 1, point_position + 1 + 6) =~= price_usd@
            .subrange(point_position + 1, point_position + 7));
    }
    Some(Permill { parts: acc })
}

/// The index of the first dot, or the length if there is none.
fn find_dot(s: &Vec<u8>) -> (r: usize)
    ensures
        r as int == first_dot_pos(s@),
        r <= s@.len(),
{
    let mut i: usize = 0;
    while i < s.len()
        invariant
            0 <= i <= s@.len(),
            forall|j: int| 0 <= j < i ==> #[trigger] s@[j] != 46,
        decreases s@.len() - i,
    {
        if s[i] == 46 {
            proof {
                lemma_first_dot_at(s@, i as int);
            }
            return i;
        }
        i = i + 1;
    }
    proof {
        lemma_first_dot_at(s@, i as int);
    }
    i
}

/// Split a price numeral at its first dot and read both parts: the whole
/// dollars and six decimals as parts per million. Yields `None` exactly on
/// the inputs `spec_parse_price` rejects.
pub fn parse_price_usd(price_usd: Vec<u8>) -> (r: Option<(u64, Permill)>)
    ensures
        match r {
            Some(v) => spec_parse_price(price_usd@) == Some((v.0, v.1.parts)),
            None => spec_parse_price(price_usd@) is None,
        },
{
    let point_position: usize = find_dot(&price_usd);
    if point_position == price_usd.len() {
        return None;
    }
    let price_usd_integer: u64 = match parse_price_usd_integer(&price_usd, point_position) {
        Some(v) => v,
        None => {
            return None;
        },
    };
    let price_usd_permil: Permill = match parse_price_usd_permil(&price_usd, point_position) {
        Some(m) => m,
        None => {
            return None;
        },
    };
    Some((price_usd_integer, price_usd_permil))
}

} // verus!
