use vstd::prelude::*;
use vstd::string::*;

verus! {

/// Lower-case hexadecimal digit for a nibble value.
pub open spec fn hex_digit(n: int) -> char {
    if n < 10 {
        (48 + n) as char
    } else {
        (87 + n) as char
    }
}

/// The two lower-case hexadecimal digits of one byte, high nibble first.
pub open spec fn spec_byte_hex(b: u8) -> Seq<char> {
    seq![hex_digit((b / 16) as int), hex_digit((b % 16) as int)]
}

/// Lower-case, zero-padded hexadecimal rendering of a byte sequence.
pub open spec fn spec_hex_string(bytes: Seq<u8>) -> Seq<char>
    decreases bytes.len(),
{
    if bytes.len() == 0 {
        Seq::empty()
    } else {
        spec_hex_string(bytes.drop_last()) + spec_byte_hex(bytes.last())
    }
}

/// `String::push`: appends one character to the string.
#[verifier::external_body]
pub(crate) fn string_push(s: &mut String, c: char)
    ensures
        final(s)@ == old(s)@.push(c),
{
    s.push(c);
}

/// An owned copy of a string slice.
pub fn owned(s: &str) -> (r: String)
    ensures
        r@ == s@,
{
    let mut r = String::new();
    r.append(s);
    r
}

/// Executable counterpart of `hex_digit`.
fn nibble_char(n: u8) -> (c: char)
    requires
        n < 16,
    ensures
        c == hex_digit(n as int),
{
    if n < 10 {
        (48u8 + n) as char
    } else {
        (87u8 + n) as char
    }
}

/// Declares `std::time::SystemTime` so that verified code can carry clock readings.
#[verifier::external_type_specification]
#[verifier::external_body]
pub struct ExSystemTime(std::time::SystemTime);

/// `SystemTime::now`: a reading of the system clock. Nothing is promised of
/// the value, which depends on the time of the call.
#[verifier::external_body]
fn system_time_now() -> std::time::SystemTime {
    std::time::SystemTime::now()
}

/// `SystemTime::duration_since(UNIX_EPOCH)`: the time since the epoch, `None`
/// where the reading lies before the epoch. Nothing is promised of the
/// duration itself.
#[verifier::external_body]
fn duration_since_epoch(t: &std::time::SystemTime) -> Option<core::time::Duration> {
    match t.duration_since(std::time::UNIX_EPOCH) {
        Ok(d) => Some(d),
        Err(_) => None,
    }
}

/// `Duration::as_secs`: the whole seconds of a duration. Nothing is promised
/// of the number, since the duration is opaque here.
#[verifier::external_body]
fn whole_seconds(d: &core::time::Duration) -> u64 {
    d.as_secs()
}

/// Timestamp in seconds for a reading of the seconds since the epoch: the
/// count reinterpreted as `i64`, or `None` for a clock set before 1970.
pub fn timestamp_from_secs(secs: Option<u64>) -> (t: Option<i64>)
    ensures
        t == match secs {
            Some(s) => Some(s as i64),
            None => None::<i64>,
        },
{
    match secs {
        Some(s) => Some(s as i64),
        None => None,
    }
}

/// Get current timestamp in seconds; `None` when the system clock reads a
/// time before 1970. What the clock reads is not stated.
pub fn get_timestamp() -> Option<i64> {
    let now = system_time_now();
    let secs = match duration_since_epoch(&now) {
        Some(d) => Some(whole_seconds(&d)),
        None => None,
    };
    timestamp_from_secs(secs)
}

/// Convert bytes to hex string
pub fn bytes_to_hex_string(bytes: &[u8]) -> (result: String)
    ensures
        result@ == spec_hex_string(bytes@),
{
    let mut result = String::new();
    let mut i: usize = 0;
    while i < bytes.len()
        invariant
            i <= bytes.len(),
            result@ == spec_hex_string(bytes@.subrange(0, i as int)),
        decreases bytes.len() - i,
    {
        let b = bytes[i];
        string_push(&mut result, nibble_char(b / 16));
        string_push(&mut result, nibble_char(b % 16));
        assert(bytes@.subrange(0, i + 1).drop_last() =~= bytes@.subrange(0, i as int));
        i += 1;
    }
    assert(bytes@.subrange(0, bytes.len() as int) =~= bytes@);
    result
}

/// Each byte is rendered as exactly two digits, high nibble first, at
/// positions `2i` and `2i + 1`.
pub proof fn lemma_hex_string_digits(bytes: Seq<u8>)
    ensures
        spec_hex_string(bytes).len() == 2 * bytes.len(),
        forall|i: int|
            0 <= i < bytes.len() ==> {
                &&& #[trigger] spec_hex_string(bytes)[2 * i] == hex_digit((bytes[i] / 16) as int)
                &&& spec_hex_string(bytes)[2 * i + 1] == hex_digit((bytes[i] % 16) as int)
            },
    decreases bytes.len(),
{
    if bytes.len() > 0 {
        lemma_hex_string_digits(bytes.drop_last());
        let prefix = spec_hex_string(bytes.drop_last());
        assert forall|i: int| 0 <= i < bytes.len() implies {
            &&& #[trigger] spec_hex_string(bytes)[2 * i] == hex_digit((bytes[i] / 16) as int)
            &&& spec_hex_string(bytes)[2 * i + 1] == hex_digit((bytes[i] % 16) as int)
        } by {
            if i < bytes.len() - 1 {
                assert(bytes.drop_last()[i] == bytes[i]);
                assert(prefix[2 * i] == hex_digit((bytes[i] / 16) as int));
            }
        }
    }
}

proof fn lemma_hex_digit_injective(m: int, n: int)
    requires
        0 <= m < 16,
        0 <= n < 16,
        hex_digit(m) == hex_digit(n),
    ensures
        m == n,
{
}

/// Different byte sequences have different hexadecimal renderings, so the
/// rendering can be read back.
pub proof fn lemma_hex_string_injective(a: Seq<u8>, b: Seq<u8>)
    requires
        spec_hex_string(a) == spec_hex_string(b),
    ensures
        a == b,
{
    lemma_hex_string_digits(a);
    lemma_hex_string_digits(b);
    assert forall|i: int| 0 <= i < a.len() implies a[i] == b[i] by {
        assert(a.len() == b.len());
        assert(spec_hex_string(a)[2 * i] == hex_digit((a[i] / 16) as int));
        assert(spec_hex_string(b)[2 * i] == hex_digit((b[i] / 16) as int));
        assert(spec_hex_string(a)[2 * i + 1] == hex_digit((a[i] % 16) as int));
        assert(spec_hex_string(b)[2 * i + 1] == hex_digit((b[i] % 16) as int));
        lemma_hex_digit_injective((a[i] / 16) as int, (b[i] / 16) as int);
        lemma_hex_digit_injective((a[i] % 16) as int, (b[i] % 16) as int);
    }
    assert(a =~= b);
}

/// What `push` adds to a sequence is all that it adds.
pub proof fn lemma_push_contains<A>(s: Seq<A>, x: A, y: A)
    ensures
        s.push(x).contains(y) <==> s.contains(y) || x == y,
{
    if s.contains(y) {
        let j = choose|j: int| 0 <= j < s.len() && s[j] == y;
        assert(s.push(x)[j] == y);
    }
    if x == y {
        assert(s.push(x)[s.len() as int] == y);
    }
    if s.push(x).contains(y) {
        let j = choose|j: int| 0 <= j < s.len() + 1 && s.push(x)[j] == y;
        if j < s.len() {
            assert(s[j] == y);
        }
    }
}

/// Sum of a list of numbers.
pub open spec fn sum_of(v: Seq<usize>) -> int
    decreases v.len(),
{
    if v.len() == 0 {
        0
    } else {
        sum_of(v.drop_last()) + v.last()
    }
}

proof fn lemma_sum_of_prefix(v: Seq<usize>, i: int)
    requires
        0 <= i <= v.len(),
    ensures
        0 <= sum_of(v.take(i)) <= sum_of(v),
    decreases v.len(),
{
    if v.len() > 0 {
        if i == v.len() {
            assert(v.take(i) =~= v);
            lemma_sum_of_prefix(v.drop_last(), i - 1);
            assert(v.drop_last().take(i - 1) =~= v.take(i - 1));
        } else {
            lemma_sum_of_prefix(v.drop_last(), i);
            assert(v.drop_last().take(i) =~= v.take(i));
        }
    }
}

/// Sum of a list of numbers, where it fits.
pub fn sum_usizes(v: &Vec<usize>) -> (total: usize)
    requires
        sum_of(v@) <= usize::MAX,
    ensures
        total == sum_of(v@),
{
    let mut total: usize = 0;
    let mut i: usize = 0;
    while i < v.len()
        invariant
            i <= v.len(),
            total == sum_of(v@.take(i as int)),
            sum_of(v@) <= usize::MAX,
        decreases v.len() - i,
    {
        proof {
            assert(v@.take(i + 1).drop_last() =~= v@.take(i as int));
            lemma_sum_of_prefix(v@, i + 1);
        }
        total = total + v[i];
        i += 1;
    }
    assert(v@.take(v.len() as int) =~= v@);
    total
}

} // verus!
