use rand::Rng;
use std::time::{Duration, SystemTime, SystemTimeError, UNIX_EPOCH};
use vstd::prelude::*;
use vstd::slice::slice_subrange;
use vstd::utf8::encode_utf8;

use crate::text::{lemma_decimal_digits, lemma_decimal_injective, decimal, is_lower_hex_char, lower_hex, push_char, push_decimal, push_lower_hex, lemma_lower_hex_shape, lemma_lower_hex_first};

verus! {

/// One unit of work for the pool: a timestamp, a random UUID and an index.
#[derive(Debug, Clone, PartialEq, Eq, Hash)]
pub struct InputData {
    pub epoch_time: u64,
    pub uuid_data: String,
    pub id: i32,
}

/// The text form of an input: `<epoch_time>_<uuid_data>`.
pub open spec fn input_text(input: InputData) -> Seq<char> {
    decimal(input.epoch_time as nat) + seq!['_'] + input.uuid_data@
}

/// The text form of an input is its decimal epoch time, `_`, then its
/// UUID text verbatim: every character of `uuid_data`, hyphens included.
pub proof fn lemma_input_text_parts(input: InputData)
    ensures
        input_text(input).len() == decimal(input.epoch_time as nat).len() + 1 + input.uuid_data@.len(),
        input_text(input).subrange(0, decimal(input.epoch_time as nat).len() as int) == decimal(
            input.epoch_time as nat,
        ),
        input_text(input)[decimal(input.epoch_time as nat).len() as int] == '_',
        input_text(input).subrange(
            (decimal(input.epoch_time as nat).len() + 1) as int,
            input_text(input).len() as int,
        ) == input.uuid_data@,
{
    let d = decimal(input.epoch_time as nat);
    let t = input_text(input);
    assert(t.subrange(0, d.len() as int) =~= d);
    assert(t.subrange((d.len() + 1) as int, t.len() as int) =~= input.uuid_data@);
}

/// Two inputs have the same text form only when their epoch times and UUID
/// texts are the same: the text form loses nothing.
pub proof fn lemma_input_text_injective(a: InputData, b: InputData)
    requires
        input_text(a) == input_text(b),
    ensures
        a.epoch_time == b.epoch_time,
        a.uuid_data@ == b.uuid_data@,
{
    let da = decimal(a.epoch_time as nat);
    let db = decimal(b.epoch_time as nat);
    lemma_decimal_digits(a.epoch_time as nat);
    lemma_decimal_digits(b.epoch_time as nat);
    lemma_input_text_parts(a);
    lemma_input_text_parts(b);
    let t = input_text(a);
    if da.len() < db.len() {
        assert(t[da.len() as int] == '_');
        assert(t[da.len() as int] == db[da.len() as int]);
    } else if db.len() < da.len() {
        assert(t[db.len() as int] == '_');
        assert(t[db.len() as int] == da[db.len() as int]);
    }
    assert(da =~= db);
    lemma_decimal_injective(a.epoch_time as nat, b.epoch_time as nat);
}

impl InputData {
    /// `<epoch_time>_<uuid_data>`, e.g. `1234_a0b1c2d3`.
    pub fn to_string(&self) -> (s: String)
        ensures
            s@ == input_text(*self),
    {
        let mut s = String::new();
        push_decimal(&mut s, self.epoch_time);
        push_char(&mut s, '_');
        s.append(self.uuid_data.as_str());
        s
    }
}

// ---------------------------------------------------------------- time

#[verifier::external_type_specification]
#[verifier::external_body]
pub struct ExSystemTime(SystemTime);

#[verifier::external_type_specification]
#[verifier::external_body]
pub struct ExSystemTimeError(SystemTimeError);

/// `SystemTime::now`: the clock reading; nothing is known of it.
#[verifier::external_body]
fn system_time_now() -> SystemTime {
    SystemTime::now()
}

/// `SystemTime::duration_since(UNIX_EPOCH)`: the time elapsed since the
/// epoch, or an error for a reading before it. Nothing is stated of either.
#[verifier::external_body]
fn duration_since_epoch(t: &SystemTime) -> Result<Duration, SystemTimeError> {
    t.duration_since(UNIX_EPOCH)
}

/// `Duration::as_secs`: the whole seconds of a duration; nothing is stated.
#[verifier::external_body]
fn duration_as_secs(d: &Duration) -> u64 {
    d.as_secs()
}

/// The current time in whole seconds since the Unix epoch; `None` when the
/// clock reads a time before the epoch.
pub fn get_epoch_time() -> Option<u64> {
    let now = system_time_now();
    match duration_since_epoch(&now) {
        Ok(d) => Some(duration_as_secs(&d)),
        Err(_) => None,
    }
}

// ---------------------------------------------------------------- uuid

/// The 16 bytes of a version-4 UUID: version nibble 4, variant bits `10`.
pub open spec fn is_v4_uuid_bytes(b: Seq<u8>) -> bool {
    &&& b.len() == 16
    &&& b[6] / 16 == 4
    &&& b[8] / 64 == 2
}

/// Hyphenated lower-case form of 16 UUID bytes: `8-4-4-4-12` hex digits.
pub open spec fn hyphenated(b: Seq<u8>) -> Seq<char> {
    lower_hex(b.subrange(0, 4)) + seq!['-'] + lower_hex(b.subrange(4, 6)) + seq!['-']
        + lower_hex(b.subrange(6, 8)) + seq!['-'] + lower_hex(b.subrange(8, 10)) + seq!['-']
        + lower_hex(b.subrange(10, 16))
}

/// The text of some random version-4 UUID.
pub open spec fn is_v4_uuid_text(s: Seq<char>) -> bool {
    exists|b: Seq<u8>| is_v4_uuid_bytes(b) && s == hyphenated(b)
}

/// `Uuid::new_v4`, taken as its 16 big-endian bytes (`into_bytes`). The
/// bytes are random; the crate sets the version nibble to 4 and the variant
/// bits to `10` (`new_v4` masks and ors a 128-bit random value, and
/// `from_u128` stores it big-endian). Nothing else is stated.
#[verifier::external_body]
fn new_v4_bytes() -> (b: Vec<u8>)
    ensures
        is_v4_uuid_bytes(b@),
{
    uuid::Uuid::new_v4().into_bytes().to_vec()
}

/// The hyphenated lower-case text of 16 UUID bytes.
pub fn format_uuid(b: &[u8]) -> (s: String)
    requires
        b@.len() == 16,
    ensures
        s@ == hyphenated(b@),
{
    let mut s = String::new();
    push_lower_hex(&mut s, slice_subrange(b, 0, 4));
    push_char(&mut s, '-');
    push_lower_hex(&mut s, slice_subrange(b, 4, 6));
    push_char(&mut s, '-');
    push_lower_hex(&mut s, slice_subrange(b, 6, 8));
    push_char(&mut s, '-');
    push_lower_hex(&mut s, slice_subrange(b, 8, 10));
    push_char(&mut s, '-');
    push_lower_hex(&mut s, slice_subrange(b, 10, 16));
    assert(s@ =~= hyphenated(b@));
    s
}

/// A fresh random version-4 UUID in hyphenated lower-case form.
pub fn random_uuid_string() -> (s: String)
    ensures
        is_v4_uuid_text(s@),
{
    let b = new_v4_bytes();
    let s = format_uuid(b.as_slice());
    assert(is_v4_uuid_bytes(b@) && s@ == hyphenated(b@));
    s
}

/// The text of a version-4 UUID is 36 characters: hexadecimal digits with
/// hyphens at 8, 13, 18 and 23, the version digit `4` at 14 and one of
/// `8`, `9`, `a`, `b` at 19.
pub proof fn lemma_v4_uuid_text_shape(s: Seq<char>)
    requires
        is_v4_uuid_text(s),
    ensures
        s.len() == 36,
        s[8] == '-' && s[13] == '-' && s[18] == '-' && s[23] == '-',
        s[14] == '4',
        s[19] == '8' || s[19] == '9' || s[19] == 'a' || s[19] == 'b',
        forall|i: int|
            0 <= i < 36 && i != 8 && i != 13 && i != 18 && i != 23 ==> is_lower_hex_char(
                #[trigger] s[i],
            ),
{
    let b = choose|b: Seq<u8>| is_v4_uuid_bytes(b) && s == hyphenated(b);
    let p0 = lower_hex(b.subrange(0, 4));
    let p1 = lower_hex(b.subrange(4, 6));
    let p2 = lower_hex(b.subrange(6, 8));
    let p3 = lower_hex(b.subrange(8, 10));
    let p4 = lower_hex(b.subrange(10, 16));
    lemma_lower_hex_shape(b.subrange(0, 4));
    lemma_lower_hex_shape(b.subrange(4, 6));
    lemma_lower_hex_shape(b.subrange(6, 8));
    lemma_lower_hex_shape(b.subrange(8, 10));
    lemma_lower_hex_shape(b.subrange(10, 16));
    lemma_lower_hex_first(b.subrange(6, 8));
    lemma_lower_hex_first(b.subrange(8, 10));
    assert(s[14] == p2[0]);
    assert(s[19] == p3[0]);
    let d = b[8] / 16;
    assert(8 <= d < 12);
    assert forall|i: int|
        0 <= i < 36 && i != 8 && i != 13 && i != 18 && i != 23 implies is_lower_hex_char(
        #[trigger] s[i],
    ) by {
        if i < 8 {
            assert(s[i] == p0[i]);
        } else if i < 13 {
            assert(s[i] == p1[i - 9]);
        } else if i < 18 {
            assert(s[i] == p2[i - 14]);
        } else if i < 23 {
            assert(s[i] == p3[i - 19]);
        } else {
            assert(s[i] == p4[i - 24]);
        }
    }
}

// ---------------------------------------------------------------- random

#[verifier::external_type_specification]
#[verifier::external_body]
pub struct ExThreadRng(rand::rngs::ThreadRng);

/// `rand::thread_rng`: the thread-local generator.
#[verifier::external_body]
fn new_thread_rng() -> rand::rngs::ThreadRng {
    rand::thread_rng()
}

/// `Rng::gen_range(low..high)`: a random value in `[low, high)`. It panics
/// on an empty range, which `requires` leaves out; which value comes out is
/// left open.
#[verifier::external_body]
fn sample_range(rng: &mut rand::rngs::ThreadRng, low: u64, high: u64) -> (r: u64)
    requires
        low < high,
    ensures
        low <= r < high,
{
    rng.gen_range(low..high)
}

/// A random number of whole seconds, from 2 to 4, that a simulated job
/// sleeps before it computes.
pub fn get_random_number() -> (r: u64)
    ensures
        2 <= r < 5,
{
    let mut rng = new_thread_rng();
    sample_range(&mut rng, 2, 5)
}

// ---------------------------------------------------------------- md5

/// The MD5 digest of a byte string, as the `md5` crate computes it.
pub uninterp spec fn md5_digest(data: Seq<u8>) -> Seq<u8>;

/// `md5::compute`, taken as the 16 digest bytes. The digest is named by
/// `md5_digest`; `Digest` holds exactly 16 bytes.
#[verifier::external_body]
fn md5_compute(data: &[u8]) -> (d: Vec<u8>)
    ensures
        d@ == md5_digest(data@),
        d@.len() == 16,
{
    md5::compute(data).0.to_vec()
}

/// The MD5 digest of the UTF-8 bytes of `my_str`, in lower-case
/// hexadecimal (32 characters).
pub fn get_md5(my_str: String) -> (h: String)
    ensures
        h@ == lower_hex(md5_digest(encode_utf8(my_str@))),
        h@.len() == 32,
        forall|i: int| 0 <= i < h@.len() ==> is_lower_hex_char(#[trigger] h@[i]),
{
    let digest = md5_compute(my_str.as_str().as_bytes());
    let mut h = String::new();
    push_lower_hex(&mut h, digest.as_slice());
    proof {
        lemma_lower_hex_shape(digest@);
        assert(h@ =~= lower_hex(digest@));
    }
    h
}

/// The work of one job: the MD5 digest, in hexadecimal, of the input's
/// text form.
pub fn calculation_for_input(input: &InputData) -> (h: String)
    ensures
        h@ == lower_hex(md5_digest(encode_utf8(input_text(*input)))),
{
    get_md5(input.to_string())
}

/// The inputs made of clock readings and UUID texts: input `k` holds
/// `epochs[k]`, `uuids[k]` and the number `k + 1`.
pub fn build_input_data(epochs: &Vec<u64>, uuids: &Vec<String>) -> (v: Vec<InputData>)
    requires
        epochs@.len() == uuids@.len(),
        epochs@.len() < i32::MAX,
    ensures
        v@.len() == epochs@.len(),
        forall|k: int| 0 <= k < v@.len() ==> {
            &&& (#[trigger] v@[k]).epoch_time == epochs@[k]
            &&& v@[k].uuid_data@ == uuids@[k]@
            &&& v@[k].id == k + 1
        },
{
    let mut input_data: Vec<InputData> = Vec::new();
    let mut i: usize = 0;
    while i < epochs.len()
        invariant
            i <= epochs@.len(),
            epochs@.len() == uuids@.len(),
            epochs@.len() < i32::MAX,
            input_data@.len() == i,
            forall|k: int| 0 <= k < i ==> {
                &&& (#[trigger] input_data@[k]).epoch_time == epochs@[k]
                &&& input_data@[k].uuid_data@ == uuids@[k]@
                &&& input_data@[k].id == k + 1
            },
        decreases epochs@.len() - i,
    {
        let id = (i + 1) as i32;
        input_data.push(InputData { epoch_time: epochs[i], uuid_data: uuids[i].clone(), id });
        i = i + 1;
    }
    input_data
}

/// Sixteen inputs numbered 1 to 16, each with its own clock reading and a
/// fresh version-4 UUID; `None` when the clock reads a time before the epoch.
pub fn generate_input_data() -> (v: Option<Vec<InputData>>)
    ensures
        v matches Some(items) ==> {
            &&& items@.len() == 16
            &&& forall|k: int| 0 <= k < 16 ==> #[trigger] items@[k].id == k + 1
            &&& forall|k: int| 0 <= k < 16 ==> is_v4_uuid_text(#[trigger] items@[k].uuid_data@)
        },
{
    let mut epochs: Vec<u64> = Vec::new();
    let mut uuids: Vec<String> = Vec::new();
    let mut i: i32 = 1;
    while i <= 16
        invariant
            1 <= i <= 17,
            epochs@.len() == i - 1,
            uuids@.len() == i - 1,
            forall|k: int| 0 <= k < i - 1 ==> is_v4_uuid_text(#[trigger] uuids@[k]@),
        decreases 17 - i,
    {
        let current_epoch = match get_epoch_time() {
            Some(t) => t,
            None => return None,
        };
        let random_uuid = random_uuid_string();
        epochs.push(current_epoch);
        uuids.push(random_uuid);
        i = i + 1;
    }
    let input_data = build_input_data(&epochs, &uuids);
    assert forall|k: int| 0 <= k < 16 implies is_v4_uuid_text(#[trigger] input_data@[k].uuid_data@) by {
        assert(input_data@[k].uuid_data@ == uuids@[k]@);
    }
    Some(input_data)
}

} // verus!
