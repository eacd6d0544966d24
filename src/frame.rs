//! Framing of data-channel messages: an unsigned-varint length, then a
//! protobuf `Message` whose field 1 is an optional flag (a varint) and whose
//! field 2 is the optional payload (length-delimited bytes).

use crate::webrtc::ConnectionError;
use vstd::prelude::*;
use vstd::slice::slice_subrange;

verus! {

/// Key of field 1 (flag, varint).
pub const FLAG_KEY: u8 = 0x08;

/// Key of field 2 (message, length-delimited).
pub const MESSAGE_KEY: u8 = 0x12;

/// The longest varint that the decoder reads, in bytes.
pub const MAX_VARINT_LEN: usize = 10;

/// The minimal unsigned-varint encoding of `n`: seven bits per byte, least
/// significant group first, the high bit set on every byte but the last.
pub open spec fn varint(n: nat) -> Seq<u8>
    decreases n,
{
    if n < 128 {
        seq![n as u8]
    } else {
        seq![((n % 128) + 128) as u8] + varint(n / 128)
    }
}

/// Reads a varint at the front of `s` within `budget` bytes: its value and
/// how many bytes it took.
pub open spec fn parse_varint(s: Seq<u8>, budget: nat) -> Option<(nat, nat)>
    decreases budget,
{
    if budget == 0 || s.len() == 0 {
        None
    } else if s[0] < 128 {
        Some((s[0] as nat, 1))
    } else {
        match parse_varint(s.drop_first(), (budget - 1) as nat) {
            Some((v, k)) => Some(((s[0] - 128) as nat + 128 * v, k + 1)),
            None => None,
        }
    }
}

/// A varint that fits in a `u64`, within the decoder's budget.
pub open spec fn parse_u64(s: Seq<u8>) -> Option<(u64, nat)> {
    match parse_varint(s, MAX_VARINT_LEN as nat) {
        Some((v, k)) => if v <= u64::MAX {
            Some((v as u64, k))
        } else {
            None
        },
        None => None,
    }
}

/// An optional field 2 that ends `b` exactly.
pub open spec fn parse_message_field(b: Seq<u8>) -> Option<Option<Seq<u8>>> {
    if b.len() == 0 {
        Some(None)
    } else if b[0] == MESSAGE_KEY {
        match parse_u64(b.drop_first()) {
            Some((len, k)) => if 1 + k + len == b.len() {
                Some(Some(b.subrange(1 + k as int, b.len() as int)))
            } else {
                None
            },
            None => None,
        }
    } else {
        None
    }
}

/// The fields of a message body: an optional flag, then an optional payload.
pub open spec fn parse_body(b: Seq<u8>) -> Option<(Option<u64>, Option<Seq<u8>>)> {
    if b.len() > 0 && b[0] == FLAG_KEY {
        match parse_u64(b.drop_first()) {
            Some((flag, k)) => match parse_message_field(b.subrange(1 + k as int, b.len() as int)) {
                Some(p) => Some((Some(flag), p)),
                None => None,
            },
            None => None,
        }
    } else {
        match parse_message_field(b) {
            Some(p) => Some((None, p)),
            None => None,
        }
    }
}

/// What a frame holds: a length that covers the rest of `s` exactly, and a
/// body of that length.
pub open spec fn parse_frame(s: Seq<u8>) -> Option<(Option<u64>, Option<Seq<u8>>)> {
    match parse_u64(s) {
        Some((len, k)) => if k + len == s.len() {
            parse_body(s.subrange(k as int, s.len() as int))
        } else {
            None
        },
        None => None,
    }
}

/// The body that carries `payload` and the optional `flag`.
pub open spec fn body(flag: Option<u64>, payload: Seq<u8>) -> Seq<u8> {
    let flag_field = match flag {
        Some(f) => seq![FLAG_KEY] + varint(f as nat),
        None => Seq::empty(),
    };
    flag_field + (seq![MESSAGE_KEY] + varint(payload.len()) + payload)
}

/// The frame that carries `payload` and the optional `flag`.
pub open spec fn frame(flag: Option<u64>, payload: Seq<u8>) -> Seq<u8> {
    varint(body(flag, payload).len()) + body(flag, payload)
}

pub open spec fn opt_view(o: Option<Vec<u8>>) -> Option<Seq<u8>> {
    match o {
        Some(v) => Some(v@),
        None => None,
    }
}

/// Appends the varint of `n` to `out`.
fn push_varint(out: &mut Vec<u8>, n: u64)
    ensures
        final(out)@ == old(out)@ + varint(n as nat),
{
    let mut rest = n;
    while rest >= 128
        invariant
            out@ + varint(rest as nat) == old(out)@ + varint(n as nat),
        decreases rest,
    {
        let ghost before = out@;
        out.push((rest % 128 + 128) as u8);
        proof {
            assert(varint(rest as nat) == seq![((rest as nat % 128) + 128) as u8] + varint(
                rest as nat / 128,
            ));
            assert(before + varint(rest as nat) =~= out@ + varint((rest / 128) as nat));
        }
        rest = rest / 128;
    }
    out.push(rest as u8);
    proof {
        assert(varint(rest as nat) == seq![rest as u8]);
    }
    assert(out@ =~= old(out)@ + varint(n as nat));
}

fn push_all(out: &mut Vec<u8>, bytes: &[u8])
    ensures
        final(out)@ == old(out)@ + bytes@,
{
    let mut i: usize = 0;
    while i < bytes.len()
        invariant
            i <= bytes@.len(),
            out@ == old(out)@ + bytes@.subrange(0, i as int),
        decreases bytes@.len() - i,
    {
        out.push(bytes[i]);
        i = i + 1;
        assert(out@ =~= old(out)@ + bytes@.subrange(0, i as int));
    }
    assert(bytes@.subrange(0, i as int) =~= bytes@);
}

/// The frame that carries `payload`, with `flag` when there is one.
pub fn encode(payload: &[u8], flag: Option<u64>) -> (r: Vec<u8>)
    requires
        body(flag, payload@).len() <= u64::MAX,
    ensures
        r@ == frame(flag, payload@),
{
    let mut b: Vec<u8> = Vec::new();
    match flag {
        Some(f) => {
            b.push(FLAG_KEY);
            push_varint(&mut b, f);
        },
        None => {},
    }
    let ghost flag_field = b@;
    b.push(MESSAGE_KEY);
    push_varint(&mut b, payload.len() as u64);
    push_all(&mut b, payload);
    proof {
        assert(flag_field == match flag {
            Some(f) => seq![FLAG_KEY] + varint(f as nat),
            None => Seq::<u8>::empty(),
        }) by {
            if flag is Some {
                assert(flag_field =~= seq![FLAG_KEY] + varint(flag.unwrap() as nat));
            } else {
                assert(flag_field =~= Seq::<u8>::empty());
            }
        }
        assert(b@ =~= body(flag, payload@));
    }
    let mut out: Vec<u8> = Vec::new();
    push_varint(&mut out, b.len() as u64);
    push_all(&mut out, b.as_slice());
    assert(out@ =~= frame(flag, payload@));
    out
}

proof fn lemma_parse_varint_len(s: Seq<u8>, budget: nat)
    ensures
        parse_varint(s, budget) matches Some((v, k)) ==> 1 <= k <= budget && k <= s.len(),
    decreases budget,
{
    if budget > 0 && s.len() > 0 && s[0] >= 128 {
        lemma_parse_varint_len(s.drop_first(), (budget - 1) as nat);
    }
}

fn read_varint(data: &[u8], pos: usize, budget: usize) -> (r: Option<(u64, usize)>)
    requires
        pos <= data@.len(),
        budget <= MAX_VARINT_LEN,
    ensures
        match parse_varint(data@.subrange(pos as int, data@.len() as int), budget as nat) {
            Some((v, k)) => if v <= u64::MAX {
                r == Some((v as u64, k as usize))
            } else {
                r is None
            },
            None => r is None,
        },
        r matches Some((_, k)) ==> 1 <= k <= budget && pos + k <= data@.len(),
    decreases budget,
{
    let ghost s = data@.subrange(pos as int, data@.len() as int);
    proof {
        lemma_parse_varint_len(s, budget as nat);
    }
    if budget == 0 || pos >= data.len() {
        return None;
    }
    let b = data[pos];
    assert(s[0] == b);
    if b < 128 {
        return Some((b as u64, 1));
    }
    let low = (b - 128) as u64;
    let rest = read_varint(data, pos + 1, budget - 1);
    proof {
        assert(s.drop_first() =~= data@.subrange(pos + 1, data@.len() as int));
    }
    match rest {
        None => {
            proof {
                match parse_varint(s.drop_first(), (budget - 1) as nat) {
                    Some((v2, k2)) => {
                        assert(v2 > u64::MAX);
                        assert((s[0] - 128) as nat + 128 * v2 > u64::MAX);
                        assert(parse_varint(s, budget as nat) == Some(
                            ((s[0] - 128) as nat + 128 * v2, k2 + 1),
                        ));
                    },
                    None => {},
                }
            }
            None
        },
        Some((v, k)) => {
            if v > (u64::MAX - low) / 128 {
                proof {
                    assert(low + 128 * (v as nat) > u64::MAX) by (nonlinear_arith)
                        requires
                            v > (u64::MAX - low) / 128,
                            low < 128,
                    ;
                }
                None
            } else {
                proof {
                    assert(low + 128 * (v as nat) <= u64::MAX) by (nonlinear_arith)
                        requires
                            v <= (u64::MAX - low) / 128,
                            low < 128,
                    ;
                }
                Some((low + 128 * v, k + 1))
            }
        },
    }
}

fn copy_range(data: &[u8], start: usize, end: usize) -> (r: Vec<u8>)
    requires
        start <= end <= data@.len(),
    ensures
        r@ == data@.subrange(start as int, end as int),
{
    let mut out: Vec<u8> = Vec::new();
    push_all(&mut out, slice_subrange(data, start, end));
    assert(out@ =~= data@.subrange(start as int, end as int));
    out
}

/// Reads one frame: its flag, if any, and its payload, if any.
/// `InvalidData` when `data` is not exactly one frame.
pub fn decode(data: &[u8]) -> (r: Result<(Option<u64>, Option<Vec<u8>>), ConnectionError>)
    ensures
        match parse_frame(data@) {
            Some((flag, payload)) => r matches Ok((f, p)) && f == flag && opt_view(p) == payload,
            None => r == Err::<(Option<u64>, Option<Vec<u8>>), ConnectionError>(
                ConnectionError::InvalidData,
            ),
        },
{
    let n = data.len();
    let ghost d = data@;
    proof {
        assert(d.subrange(0, n as int) =~= d);
    }
    let (len, k) = match read_varint(data, 0, MAX_VARINT_LEN) {
        Some(x) => x,
        None => return Err(ConnectionError::InvalidData),
    };
    if len != (n - k) as u64 {
        return Err(ConnectionError::InvalidData);
    }
    let ghost b = d.subrange(k as int, n as int);
    proof {
        lemma_parse_varint_len(d, MAX_VARINT_LEN as nat);
        assert(parse_u64(d) == Some((len, k as nat)));
        assert(parse_frame(d) == parse_body(b));
        assert(b.len() == n - k);
        if k < n {
            assert(b[0] == d[k as int]);
        }
    }
    let mut pos = k;
    let mut flag: Option<u64> = None;
    if pos < n && data[pos] == FLAG_KEY {
        proof {
            assert(b.drop_first() =~= d.subrange(k + 1, n as int));
        }
        match read_varint(data, pos + 1, MAX_VARINT_LEN) {
            Some((f, fk)) => {
                proof {
                    lemma_parse_varint_len(b.drop_first(), MAX_VARINT_LEN as nat);
                    assert(parse_u64(b.drop_first()) == Some((f, fk as nat)));
                }
                pos = pos + 1 + fk;
                flag = Some(f);
                proof {
                    assert(b.subrange(1 + fk as int, b.len() as int) =~= d.subrange(
                        pos as int,
                        n as int,
                    ));
                }
            },
            None => return Err(ConnectionError::InvalidData),
        }
    }
    let ghost m = d.subrange(pos as int, n as int);
    proof {
        if flag is None {
            assert(m =~= b);
        }
        assert(m.len() == n - pos);
        if pos < n {
            assert(m[0] == d[pos as int]);
        }
        assert(parse_body(b) == match parse_message_field(m) {
            Some(p) => Some((flag, p)),
            None => None,
        });
    }
    if pos == n {
        return Ok((flag, None));
    }
    if data[pos] != MESSAGE_KEY {
        return Err(ConnectionError::InvalidData);
    }
    proof {
        assert(m.drop_first() =~= d.subrange(pos + 1, n as int));
        lemma_parse_varint_len(m.drop_first(), MAX_VARINT_LEN as nat);
    }
    match read_varint(data, pos + 1, MAX_VARINT_LEN) {
        Some((plen, pk)) => {
            let start = pos + 1 + pk;
            proof {
                assert(parse_u64(m.drop_first()) == Some((plen, pk as nat)));
            }
            if plen != (n - start) as u64 {
                return Err(ConnectionError::InvalidData);
            }
            let payload = copy_range(data, start, n);
            proof {
                assert(m.subrange(1 + pk as int, m.len() as int) =~= d.subrange(
                    start as int,
                    n as int,
                ));
            }
            Ok((flag, Some(payload)))
        },
        None => Err(ConnectionError::InvalidData),
    }
}

pub open spec fn pow128(k: nat) -> nat
    decreases k,
{
    if k == 0 {
        1
    } else {
        128 * pow128((k - 1) as nat)
    }
}

proof fn lemma_varint_len(n: nat, k: nat)
    requires
        n < pow128(k),
        k >= 1,
    ensures
        varint(n).len() <= k,
        varint(n).len() >= 1,
    decreases n,
{
    if n >= 128 {
        assert(k > 0);
        let k1 = (k - 1) as nat;
        assert(n / 128 < pow128(k1)) by (nonlinear_arith)
            requires
                n < 128 * pow128(k1),
        ;
        if k1 == 0 {
            assert(pow128(0) == 1);
        }
        lemma_varint_len(n / 128, k1);
    }
}

proof fn lemma_u64_varint_len(n: u64)
    ensures
        1 <= varint(n as nat).len() <= MAX_VARINT_LEN,
{
    reveal_with_fuel(pow128, 11);
    assert(pow128(10) == 1180591620717411303424);
    lemma_varint_len(n as nat, 10);
}

proof fn lemma_parse_varint(n: nat, rest: Seq<u8>, budget: nat)
    requires
        varint(n).len() <= budget,
    ensures
        parse_varint(varint(n) + rest, budget) == Some((n, varint(n).len())),
    decreases n,
{
    let s = varint(n) + rest;
    if n < 128 {
        assert(s[0] == n as u8);
    } else {
        let first = ((n % 128) + 128) as u8;
        assert(s[0] == first);
        assert(s.drop_first() =~= varint(n / 128) + rest);
        lemma_parse_varint(n / 128, rest, (budget - 1) as nat);
    }
}

proof fn lemma_parse_u64(n: u64, rest: Seq<u8>)
    ensures
        parse_u64(varint(n as nat) + rest) == Some((n, varint(n as nat).len())),
{
    lemma_u64_varint_len(n);
    lemma_parse_varint(n as nat, rest, MAX_VARINT_LEN as nat);
}

/// Decoding the frame of a flag and a payload gives back that flag and that
/// payload.
pub proof fn lemma_frame_round_trip(flag: Option<u64>, payload: Seq<u8>)
    requires
        body(flag, payload).len() <= u64::MAX,
    ensures
        parse_frame(frame(flag, payload)) == Some((flag, Some(payload))),
{
    let b = body(flag, payload);
    let len = b.len() as u64;
    lemma_parse_u64(len, b);
    let f = frame(flag, payload);
    lemma_u64_varint_len(len);
    assert(f.subrange(varint(len as nat).len() as int, f.len() as int) =~= b);
    let plen = payload.len() as u64;
    let field = seq![MESSAGE_KEY] + varint(plen as nat) + payload;
    assert(field.drop_first() =~= varint(plen as nat) + payload);
    lemma_parse_u64(plen, payload);
    assert(field.subrange(1 + varint(plen as nat).len() as int, field.len() as int) =~= payload);
    assert(parse_message_field(field) == Some(Some(payload)));
    match flag {
        Some(x) => {
            assert(b =~= seq![FLAG_KEY] + varint(x as nat) + field);
            assert(b.drop_first() =~= varint(x as nat) + field);
            lemma_parse_u64(x, field);
            assert(b.subrange(1 + varint(x as nat).len() as int, b.len() as int) =~= field);
        },
        None => {
            assert(b =~= field);
        },
    }
}

} // verus!
