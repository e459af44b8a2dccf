//! The administrative user record and its length-delimited wire codec.
//!
//! A record is a sequence of tagged fields. Each of the four text fields is
//! framed as `varint(field * 8 + 2), varint(byte length), UTF-8 bytes` and is
//! omitted when empty; the creation time is a nested record of two varint
//! fields, each omitted when zero.
use vstd::prelude::*;
use vstd::string::StrSliceExecFns;
use vstd::utf8::{valid_utf8, decode_utf8, encode_utf8};
use vstd::arithmetic::div_mod::{lemma_small_mod, lemma_mod_multiples_vanish};
use crate::wire::{
    MAX_VARINT_BYTES,
    spec_varint, spec_take_varint, lemma_take_varint_bounds, lemma_take_varint_roundtrip,
    lemma_varint_len, encode_varint, take_varint, copy_range,
};

verus! {

/// Creation time: whole seconds and a sub-second correction.
#[derive(Clone, Copy, PartialEq, Eq, Structural, Debug)]
pub struct Timestamp {
    pub seconds: i64,
    pub nanos: i32,
}

/// The administrative record created once by the install transition.
#[derive(Clone, Debug)]
pub struct User {
    pub id: String,
    pub name: String,
    pub email: String,
    pub password: String,
    pub created_at: Option<Timestamp>,
}

/// Mathematical image of a [`User`].
#[verifier::ext_equal]
pub struct UserView {
    pub id: Seq<char>,
    pub name: Seq<char>,
    pub email: Seq<char>,
    pub password: Seq<char>,
    pub created_at: Option<Timestamp>,
}

impl View for User {
    type V = UserView;

    open spec fn view(&self) -> UserView {
        UserView {
            id: self.id@,
            name: self.name@,
            email: self.email@,
            password: self.password@,
            created_at: self.created_at,
        }
    }
}

/// The record with every field at its default.
pub open spec fn spec_user_empty() -> UserView {
    UserView {
        id: Seq::empty(),
        name: Seq::empty(),
        email: Seq::empty(),
        password: Seq::empty(),
        created_at: None,
    }
}

impl User {
    /// A record with empty text fields and no creation time.
    pub fn empty() -> (r: User)
        ensures
            r@ == spec_user_empty(),
    {
        let r = User {
            id: String::new(),
            name: String::new(),
            email: String::new(),
            password: String::new(),
            created_at: None,
        };
        assert(r@ =~= spec_user_empty());
        r
    }
}

/// The 64-bit two's-complement image of a signed count.
pub open spec fn wide_of_i64(x: i64) -> nat {
    if x >= 0 {
        x as nat
    } else {
        (0x1_0000_0000_0000_0000 + x) as nat
    }
}

/// The signed count that a 64-bit image stands for.
pub open spec fn i64_of_wide(n: nat) -> i64
    recommends
        n <= u64::MAX,
{
    if n < 0x8000_0000_0000_0000 {
        n as i64
    } else {
        (n - 0x1_0000_0000_0000_0000) as i64
    }
}

/// The signed 32-bit count in the low half of a 64-bit image.
pub open spec fn i32_of_wide(n: nat) -> i32 {
    let low = n % 0x1_0000_0000;
    if low < 0x8000_0000 {
        low as i32
    } else {
        (low - 0x1_0000_0000) as i32
    }
}

fn u64_wide_of_i64(x: i64) -> (r: u64)
    ensures
        r as nat == wide_of_i64(x),
{
    if x >= 0 {
        x as u64
    } else {
        let y: u64 = (-(x + 1)) as u64;
        u64::MAX - y
    }
}

fn i64_of_wide_u64(n: u64) -> (r: i64)
    ensures
        r == i64_of_wide(n as nat),
{
    if n < 0x8000_0000_0000_0000 {
        n as i64
    } else {
        let y: u64 = u64::MAX - n;
        -(y as i64) - 1
    }
}

fn i32_of_wide_u64(n: u64) -> (r: i32)
    ensures
        r == i32_of_wide(n as nat),
{
    let low: u64 = n % 0x1_0000_0000;
    if low < 0x8000_0000 {
        low as i32
    } else {
        let y: u64 = 0xFFFF_FFFF - low;
        -(y as i32) - 1
    }
}

/// Frame of one non-empty text field: key, byte length, payload.
pub open spec fn spec_len_delim(key: nat, payload: Seq<u8>) -> Seq<u8> {
    spec_varint(key) + spec_varint(payload.len()) + payload
}

/// Encoding of text field number `field`, omitted when empty.
pub open spec fn spec_string_field(field: nat, s: Seq<char>) -> Seq<u8> {
    if s.len() == 0 {
        Seq::empty()
    } else {
        spec_len_delim(field * 8 + 2, encode_utf8(s))
    }
}

/// Payload of the nested creation-time record.
pub open spec fn spec_ts_payload(t: Timestamp) -> Seq<u8> {
    (if t.seconds == 0 {
        Seq::<u8>::empty()
    } else {
        spec_varint(8) + spec_varint(wide_of_i64(t.seconds))
    }) + (if t.nanos == 0 {
        Seq::<u8>::empty()
    } else {
        spec_varint(16) + spec_varint(wide_of_i64(t.nanos as i64))
    })
}

/// Full encoding of a user record.
pub open spec fn spec_encode_user(u: UserView) -> Seq<u8> {
    spec_string_field(1, u.id) + spec_string_field(2, u.name) + spec_string_field(3, u.email)
        + spec_string_field(4, u.password) + (match u.created_at {
        None => Seq::<u8>::empty(),
        Some(t) => spec_len_delim(42, spec_ts_payload(t)),
    })
}

fn encode_string_field(field: u64, s: &String, out: &mut Vec<u8>)
    requires
        1 <= field <= 4,
    ensures
        final(out)@ == old(out)@ + spec_string_field(field as nat, s@),
{
    if s.as_str().is_empty() {
        assert(final(out)@ =~= old(out)@ + spec_string_field(field as nat, s@));
        return ;
    }
    let ghost start = out@;
    encode_varint(field * 8 + 2, out);
    let mut bytes = s.as_str().as_bytes_vec();
    encode_varint(bytes.len() as u64, out);
    out.append(&mut bytes);
    assert(out@ =~= start + spec_string_field(field as nat, s@));
}

fn encode_ts_payload(t: &Timestamp) -> (r: Vec<u8>)
    ensures
        r@ == spec_ts_payload(*t),
{
    let mut out: Vec<u8> = Vec::new();
    if t.seconds != 0 {
        encode_varint(8, &mut out);
        encode_varint(u64_wide_of_i64(t.seconds), &mut out);
    }
    if t.nanos != 0 {
        encode_varint(16, &mut out);
        encode_varint(u64_wide_of_i64(t.nanos as i64), &mut out);
    }
    assert(out@ =~= spec_ts_payload(*t));
    out
}

/// Encodes `u` as its wire record.
pub fn encode_user(u: &User) -> (r: Vec<u8>)
    ensures
        r@ == spec_encode_user(u@),
{
    let mut out: Vec<u8> = Vec::new();
    encode_string_field(1, &u.id, &mut out);
    encode_string_field(2, &u.name, &mut out);
    encode_string_field(3, &u.email, &mut out);
    encode_string_field(4, &u.password, &mut out);
    match &u.created_at {
        None => {},
        Some(t) => {
            let ghost start = out@;
            let mut payload = encode_ts_payload(t);
            let ghost pl = payload@;
            encode_varint(42, &mut out);
            encode_varint(payload.len() as u64, &mut out);
            out.append(&mut payload);
            assert(out@ =~= start + spec_len_delim(42, pl));
        },
    }
    assert(out@ =~= spec_encode_user(u@));
    out
}

/// What remains of the nested creation-time payload `b`, folded over `acc`.
/// Field 1 sets the seconds, field 2 the nanos; anything else is refused.
pub open spec fn spec_decode_ts_from(b: Seq<u8>, acc: Timestamp) -> Option<Timestamp>
    decreases b.len(),
    via spec_decode_ts_from_decreases
{
    if b.len() == 0 {
        Some(acc)
    } else {
        match spec_take_varint(b) {
            None => None,
            Some((key, k)) => {
                let rest = b.skip(k);
                if key == 8 || key == 16 {
                    match spec_take_varint(rest) {
                        None => None,
                        Some((v, k2)) => if v > u64::MAX {
                            None
                        } else if key == 8 {
                            spec_decode_ts_from(
                                rest.skip(k2),
                                Timestamp { seconds: i64_of_wide(v), nanos: acc.nanos },
                            )
                        } else {
                            spec_decode_ts_from(
                                rest.skip(k2),
                                Timestamp { seconds: acc.seconds, nanos: i32_of_wide(v) },
                            )
                        },
                    }
                } else {
                    None
                }
            },
        }
    }
}

#[via_fn]
proof fn spec_decode_ts_from_decreases(b: Seq<u8>, acc: Timestamp) {
    lemma_take_varint_bounds(b, MAX_VARINT_BYTES as nat);
    if b.len() != 0 {
        match spec_take_varint(b) {
            None => {},
            Some((key, k)) => {
                lemma_take_varint_bounds(b.skip(k), MAX_VARINT_BYTES as nat);
            },
        }
    }
}

/// The user record read from `b`, folded over `acc`. Fields 1 to 4 are the
/// text fields, field 5 the nested creation time; any other key, a broken
/// frame, or a text payload that is not UTF-8 is refused.
pub open spec fn spec_decode_user_from(b: Seq<u8>, acc: UserView) -> Option<UserView>
    decreases b.len(),
    via spec_decode_user_from_decreases
{
    if b.len() == 0 {
        Some(acc)
    } else {
        match spec_take_varint(b) {
            None => None,
            Some((key, k)) => {
                let rest = b.skip(k);
                if key == 10 || key == 18 || key == 26 || key == 34 || key == 42 {
                    match spec_take_varint(rest) {
                        None => None,
                        Some((len, k2)) => if k2 + len > rest.len() {
                            None
                        } else {
                            let payload = rest.subrange(k2, k2 + len);
                            let tail = rest.skip(k2 + len);
                            if key == 42 {
                                let start = match acc.created_at {
                                    None => Timestamp { seconds: 0, nanos: 0 },
                                    Some(t) => t,
                                };
                                match spec_decode_ts_from(payload, start) {
                                    None => None,
                                    Some(t) => spec_decode_user_from(
                                        tail,
                                        UserView { created_at: Some(t), ..acc },
                                    ),
                                }
                            } else if valid_utf8(payload) {
                                let s = decode_utf8(payload);
                                let acc2 = if key == 10 {
                                    UserView { id: s, ..acc }
                                } else if key == 18 {
                                    UserView { name: s, ..acc }
                                } else if key == 26 {
                                    UserView { email: s, ..acc }
                                } else {
                                    UserView { password: s, ..acc }
                                };
                                spec_decode_user_from(tail, acc2)
                            } else {
                                None
                            }
                        },
                    }
                } else {
                    None
                }
            },
        }
    }
}

#[via_fn]
proof fn spec_decode_user_from_decreases(b: Seq<u8>, acc: UserView) {
    lemma_take_varint_bounds(b, MAX_VARINT_BYTES as nat);
    if b.len() != 0 {
        match spec_take_varint(b) {
            None => {},
            Some((key, k)) => {
                lemma_take_varint_bounds(b.skip(k), MAX_VARINT_BYTES as nat);
            },
        }
    }
}

/// The user record that `b` encodes, starting from an all-default record.
pub open spec fn spec_decode_user(b: Seq<u8>) -> Option<UserView> {
    spec_decode_user_from(b, spec_user_empty())
}

/// Relies on String::from_utf8: it succeeds exactly on valid UTF-8 input and
/// returns the characters that the bytes encode.
#[verifier::external_body]
fn bytes_to_string(v: Vec<u8>) -> (r: Option<String>)
    ensures
        (match r {
            Some(s) => valid_utf8(v@) && s@ == decode_utf8(v@),
            None => !valid_utf8(v@),
        }),
{
    String::from_utf8(v).ok()
}

fn decode_ts_payload(b: &Vec<u8>, acc0: Timestamp) -> (r: Option<Timestamp>)
    ensures
        r == spec_decode_ts_from(b@, acc0),
{
    let mut i: usize = 0;
    let mut acc = acc0;
    proof {
        assert(b@.skip(0) =~= b@);
    }
    while i < b.len()
        invariant
            i <= b.len(),
            spec_decode_ts_from(b@.skip(i as int), acc) == spec_decode_ts_from(b@, acc0),
        decreases b.len() - i,
    {
        let ghost rem = b@.skip(i as int);
        proof {
            lemma_take_varint_bounds(rem, MAX_VARINT_BYTES as nat);
        }
        let (key, k) = match take_varint(b, i) {
            None => {
                return None;
            },
            Some(x) => x,
        };
        let j = i + k;
        let ghost rest = rem.skip(k as int);
        proof {
            assert(rest =~= b@.skip(j as int));
            lemma_take_varint_bounds(rest, MAX_VARINT_BYTES as nat);
        }
        if key == 8 || key == 16 {
            let (v, k2) = match take_varint(b, j) {
                None => {
                    return None;
                },
                Some(x) => x,
            };
            if key == 8 {
                acc = Timestamp { seconds: i64_of_wide_u64(v), nanos: acc.nanos };
            } else {
                acc = Timestamp { seconds: acc.seconds, nanos: i32_of_wide_u64(v) };
            }
            i = j + k2;
            proof {
                assert(rest.skip(k2 as int) =~= b@.skip(i as int));
            }
        } else {
            return None;
        }
    }
    Some(acc)
}

/// Decodes `b` as a user record; `None` exactly where the format refuses it.
pub fn decode_user(b: &Vec<u8>) -> (r: Option<User>)
    ensures
        (match r {
            Some(u) => spec_decode_user(b@) == Some(u@),
            None => spec_decode_user(b@) is None,
        }),
{
    let mut i: usize = 0;
    let mut acc = User::empty();
    proof {
        assert(b@.skip(0) =~= b@);
    }
    while i < b.len()
        invariant
            i <= b.len(),
            spec_decode_user_from(b@.skip(i as int), acc@) == spec_decode_user(b@),
        decreases b.len() - i,
    {
        let ghost rem = b@.skip(i as int);
        proof {
            lemma_take_varint_bounds(rem, MAX_VARINT_BYTES as nat);
        }
        let (key, k) = match take_varint(b, i) {
            None => {
                return None;
            },
            Some(x) => x,
        };
        let j = i + k;
        let ghost rest = rem.skip(k as int);
        proof {
            assert(rest =~= b@.skip(j as int));
            lemma_take_varint_bounds(rest, MAX_VARINT_BYTES as nat);
        }
        if key == 10 || key == 18 || key == 26 || key == 34 || key == 42 {
            let (len, k2) = match take_varint(b, j) {
                None => {
                    return None;
                },
                Some(x) => x,
            };
            let p_start = j + k2;
            if len > (b.len() - p_start) as u64 {
                return None;
            }
            let p_end = p_start + (len as usize);
            let payload = copy_range(b, p_start, p_end);
            let ghost tail = rest.skip(k2 + len as int);
            proof {
                assert(payload@ =~= rest.subrange(k2 as int, k2 + len as int));
                assert(tail =~= b@.skip(p_end as int));
            }
            if key == 42 {
                let start = match acc.created_at {
                    None => Timestamp { seconds: 0, nanos: 0 },
                    Some(t) => t,
                };
                match decode_ts_payload(&payload, start) {
                    None => {
                        return None;
                    },
                    Some(t) => {
                        let ghost before = acc@;
                        acc.created_at = Some(t);
                        assert(acc@ =~= (UserView { created_at: Some(t), ..before }));
                    },
                }
            } else {
                match bytes_to_string(payload) {
                    None => {
                        return None;
                    },
                    Some(s) => {
                        let ghost before = acc@;
                        let ghost sv = s@;
                        if key == 10 {
                            acc.id = s;
                            assert(acc@ =~= (UserView { id: sv, ..before }));
                        } else if key == 18 {
                            acc.name = s;
                            assert(acc@ =~= (UserView { name: sv, ..before }));
                        } else if key == 26 {
                            acc.email = s;
                            assert(acc@ =~= (UserView { email: sv, ..before }));
                        } else {
                            acc.password = s;
                            assert(acc@ =~= (UserView { password: sv, ..before }));
                        }
                    },
                }
            }
            i = p_end;
        } else {
            return None;
        }
    }
    Some(acc)
}

proof fn lemma_wide_i64_roundtrip(x: i64)
    ensures
        i64_of_wide(wide_of_i64(x)) == x,
{
}

proof fn lemma_wide_i32_roundtrip(x: i32)
    ensures
        i32_of_wide(wide_of_i64(x as i64)) == x,
{
    let m: int = 0x1_0000_0000;
    let w = wide_of_i64(x as i64) as int;
    if x >= 0 {
        lemma_small_mod(x as nat, m as nat);
    } else {
        assert(w == m * 0xFFFF_FFFF + (m + x));
        lemma_mod_multiples_vanish(0xFFFF_FFFF, m + x, m);
        lemma_small_mod((m + x) as nat, m as nat);
    }
}

/// The nested creation-time payload never exceeds 22 bytes.
proof fn lemma_ts_payload_len(t: Timestamp)
    ensures
        spec_ts_payload(t).len() <= 22,
{
    lemma_varint_len(wide_of_i64(t.seconds));
    lemma_varint_len(wide_of_i64(t.nanos as i64));
    lemma_varint_len(8);
    lemma_varint_len(16);
}

proof fn lemma_decode_frame(key: nat, payload: Seq<u8>, rest: Seq<u8>)
    requires
        key <= u64::MAX,
        payload.len() <= u64::MAX,
    ensures
        ({
            let b = spec_len_delim(key, payload) + rest;
            let kl = spec_varint(key).len() as int;
            let ll = spec_varint(payload.len()).len() as int;
            &&& b.len() > 0
            &&& spec_take_varint(b) == Some((key, kl))
            &&& spec_take_varint(b.skip(kl)) == Some((payload.len(), ll))
            &&& ll + payload.len() <= b.skip(kl).len()
            &&& b.skip(kl).subrange(ll, ll + payload.len() as int) =~= payload
            &&& b.skip(kl).skip(ll + payload.len() as int) =~= rest
        }),
{
    let b = spec_len_delim(key, payload) + rest;
    let kl = spec_varint(key).len() as int;
    let ll = spec_varint(payload.len()).len() as int;
    let tail1 = spec_varint(payload.len()) + payload + rest;
    lemma_varint_len(key);
    lemma_varint_len(payload.len());
    assert(b =~= spec_varint(key) + tail1);
    lemma_take_varint_roundtrip(key, tail1);
    assert(b.skip(kl) =~= tail1);
    assert(tail1 =~= spec_varint(payload.len()) + (payload + rest));
    lemma_take_varint_roundtrip(payload.len(), payload + rest);
    assert(tail1.subrange(ll, ll + payload.len() as int) =~= payload);
    assert(tail1.skip(ll + payload.len() as int) =~= rest);
}

proof fn lemma_decode_ts_roundtrip(t: Timestamp)
    ensures
        spec_decode_ts_from(spec_ts_payload(t), Timestamp { seconds: 0, nanos: 0 }) == Some(t),
{
    let z = Timestamp { seconds: 0, nanos: 0 };
    let mid = Timestamp { seconds: t.seconds, nanos: 0 };
    let ws = wide_of_i64(t.seconds);
    let wn = wide_of_i64(t.nanos as i64);
    let nan_part: Seq<u8> = if t.nanos == 0 {
        Seq::empty()
    } else {
        spec_varint(16) + spec_varint(wn)
    };
    assert(spec_decode_ts_from(nan_part, mid) == Some(t)) by {
        if t.nanos == 0 {
            assert(mid == t);
        } else {
            lemma_take_varint_roundtrip(16, spec_varint(wn));
            assert(nan_part.skip(spec_varint(16).len() as int) =~= spec_varint(wn));
            lemma_take_varint_roundtrip(wn, Seq::empty());
            assert(spec_varint(wn) =~= spec_varint(wn) + Seq::<u8>::empty());
            lemma_wide_i32_roundtrip(t.nanos);
            let after = spec_varint(wn).skip(spec_varint(wn).len() as int);
            assert(after =~= Seq::<u8>::empty());
            assert(spec_decode_ts_from(nan_part, mid) == spec_decode_ts_from(after, t));
        }
    }
    if t.seconds == 0 {
        assert(spec_ts_payload(t) =~= nan_part);
        assert(z == mid);
    } else {
        let sec_part = spec_varint(8) + spec_varint(ws);
        assert(spec_ts_payload(t) =~= sec_part + nan_part);
        let b = sec_part + nan_part;
        assert(b =~= spec_varint(8) + (spec_varint(ws) + nan_part));
        lemma_take_varint_roundtrip(8, spec_varint(ws) + nan_part);
        assert(b.skip(spec_varint(8).len() as int) =~= spec_varint(ws) + nan_part);
        lemma_take_varint_roundtrip(ws, nan_part);
        lemma_wide_i64_roundtrip(t.seconds);
        let after = (spec_varint(ws) + nan_part).skip(spec_varint(ws).len() as int);
        assert(after =~= nan_part);
        assert(spec_decode_ts_from(b, z) == spec_decode_ts_from(nan_part, mid));
        assert(spec_decode_ts_from(spec_ts_payload(t), z) == spec_decode_ts_from(b, z));
    }
}

proof fn lemma_decode_user_step_string(field: nat, s: Seq<char>, rest: Seq<u8>, acc: UserView)
    requires
        1 <= field <= 4,
        s.len() > 0,
        encode_utf8(s).len() <= u64::MAX,
    ensures
        spec_decode_user_from(spec_string_field(field, s) + rest, acc) == spec_decode_user_from(
            rest,
            (if field == 1 {
                UserView { id: s, ..acc }
            } else if field == 2 {
                UserView { name: s, ..acc }
            } else if field == 3 {
                UserView { email: s, ..acc }
            } else {
                UserView { password: s, ..acc }
            }),
        ),
{
    broadcast use vstd::utf8::encode_utf8_valid_utf8;
    broadcast use vstd::utf8::encode_utf8_decode_utf8;

    let key = field * 8 + 2;
    let payload = encode_utf8(s);
    lemma_decode_frame(key, payload, rest);
    let b = spec_len_delim(key, payload) + rest;
    assert(spec_string_field(field, s) + rest =~= b);
    assert(key == 10 || key == 18 || key == 26 || key == 34);
    assert(valid_utf8(payload));
    assert(decode_utf8(payload) == s);
}

proof fn lemma_decode_user_step_ts(t: Timestamp, rest: Seq<u8>, acc: UserView)
    requires
        acc.created_at is None,
    ensures
        spec_decode_user_from(spec_len_delim(42, spec_ts_payload(t)) + rest, acc)
            == spec_decode_user_from(rest, UserView { created_at: Some(t), ..acc }),
{
    lemma_ts_payload_len(t);
    lemma_decode_frame(42, spec_ts_payload(t), rest);
    lemma_decode_ts_roundtrip(t);
}

/// True when each text field's encoding fits a 64-bit length, as any record
/// held in memory does.
pub open spec fn user_fits(u: UserView) -> bool {
    &&& encode_utf8(u.id).len() <= u64::MAX
    &&& encode_utf8(u.name).len() <= u64::MAX
    &&& encode_utf8(u.email).len() <= u64::MAX
    &&& encode_utf8(u.password).len() <= u64::MAX
}

/// Law: decoding an encoded record returns the record unchanged, whatever its
/// fields hold.
pub proof fn lemma_user_codec_roundtrip(u: UserView)
    requires
        user_fits(u),
    ensures
        spec_decode_user(spec_encode_user(u)) == Some(u),
{
    let acc0 = spec_user_empty();
    let b5: Seq<u8> = match u.created_at {
        None => Seq::empty(),
        Some(t) => spec_len_delim(42, spec_ts_payload(t)),
    };
    let b4 = spec_string_field(4, u.password) + b5;
    let b3 = spec_string_field(3, u.email) + b4;
    let b2 = spec_string_field(2, u.name) + b3;
    let b1 = spec_string_field(1, u.id) + b2;
    assert(spec_encode_user(u) =~= b1);

    let acc1 = UserView { id: u.id, ..acc0 };
    assert(spec_decode_user_from(b1, acc0) == spec_decode_user_from(b2, acc1)) by {
        if u.id.len() == 0 {
            assert(b1 =~= b2);
            assert(acc1 =~= acc0);
        } else {
            lemma_decode_user_step_string(1, u.id, b2, acc0);
        }
    }
    let acc2 = UserView { name: u.name, ..acc1 };
    assert(spec_decode_user_from(b2, acc1) == spec_decode_user_from(b3, acc2)) by {
        if u.name.len() == 0 {
            assert(b2 =~= b3);
            assert(acc2 =~= acc1);
        } else {
            lemma_decode_user_step_string(2, u.name, b3, acc1);
        }
    }
    let acc3 = UserView { email: u.email, ..acc2 };
    assert(spec_decode_user_from(b3, acc2) == spec_decode_user_from(b4, acc3)) by {
        if u.email.len() == 0 {
            assert(b3 =~= b4);
            assert(acc3 =~= acc2);
        } else {
            lemma_decode_user_step_string(3, u.email, b4, acc2);
        }
    }
    let acc4 = UserView { password: u.password, ..acc3 };
    assert(spec_decode_user_from(b4, acc3) == spec_decode_user_from(b5, acc4)) by {
        if u.password.len() == 0 {
            assert(b4 =~= b5);
            assert(acc4 =~= acc3);
        } else {
            lemma_decode_user_step_string(4, u.password, b5, acc3);
        }
    }
    match u.created_at {
        None => {
            assert(acc4 =~= u);
            assert(spec_decode_user_from(b5, acc4) == Some(acc4));
        },
        Some(t) => {
            assert(b5 =~= spec_len_delim(42, spec_ts_payload(t)) + Seq::<u8>::empty());
            lemma_decode_user_step_ts(t, Seq::empty(), acc4);
            let acc5 = UserView { created_at: Some(t), ..acc4 };
            assert(acc5 =~= u);
            assert(spec_decode_user_from(Seq::<u8>::empty(), acc5) == Some(acc5));
        },
    }
}

} // verus!
