//! The MessagePack subset the RPC layer speaks: a fixarray of strings.
//!
//! The request and response records of the vote service serialize as a
//! MessagePack array of their string fields.  [`parse_str_array`] is the
//! reference parser of that shape; the executable encoder and decoder are
//! verified against it, so encoding followed by decoding is the identity.

use vstd::prelude::*;

use crate::text::string_from_utf8;
use vstd::utf8::{decode_utf8, encode_utf8, valid_utf8};

verus! {

/// Reference parse of one MessagePack string item at the front of `bytes`:
/// the payload bytes and the count of bytes consumed.  The four markers are
/// fixstr, str 8, str 16 and str 32.
pub open spec fn parse_str_item(bytes: Seq<u8>) -> Option<(Seq<u8>, int)> {
    if bytes.len() < 1 {
        None
    } else {
        let b0 = bytes[0] as int;
        if 0xa0 <= b0 && b0 <= 0xbf {
            let n = b0 - 0xa0;
            if bytes.len() >= 1 + n {
                Some((bytes.subrange(1, 1 + n), 1 + n))
            } else {
                None
            }
        } else if b0 == 0xd9 {
            if bytes.len() < 2 {
                None
            } else {
                let n = bytes[1] as int;
                if bytes.len() >= 2 + n {
                    Some((bytes.subrange(2, 2 + n), 2 + n))
                } else {
                    None
                }
            }
        } else if b0 == 0xda {
            if bytes.len() < 3 {
                None
            } else {
                let n = (bytes[1] as int) * 0x100 + (bytes[2] as int);
                if bytes.len() >= 3 + n {
                    Some((bytes.subrange(3, 3 + n), 3 + n))
                } else {
                    None
                }
            }
        } else if b0 == 0xdb {
            if bytes.len() < 5 {
                None
            } else {
                let n = (bytes[1] as int) * 0x1000000 + (bytes[2] as int) * 0x10000 + (
                bytes[3] as int) * 0x100 + (bytes[4] as int);
                if bytes.len() >= 5 + n {
                    Some((bytes.subrange(5, 5 + n), 5 + n))
                } else {
                    None
                }
            }
        } else {
            None
        }
    }
}

/// Reference parse of `k` consecutive string items: their payloads and the
/// total count of bytes consumed.
pub open spec fn parse_str_items(bytes: Seq<u8>, k: nat) -> Option<(Seq<Seq<u8>>, int)>
    decreases k,
{
    if k == 0 {
        Some((Seq::empty(), 0))
    } else {
        match parse_str_item(bytes) {
            None => None,
            Some((p, c)) => match parse_str_items(bytes.skip(c), (k - 1) as nat) {
                None => None,
                Some((ps, c2)) => Some((seq![p] + ps, c + c2)),
            },
        }
    }
}

/// Reference parse of a whole message: a fixarray header announcing `k`
/// items, the `k` string items, and nothing after them.
pub open spec fn parse_str_array(bytes: Seq<u8>, k: nat) -> Option<Seq<Seq<u8>>> {
    if bytes.len() < 1 || k > 15 || bytes[0] as int != 0x90 + k {
        None
    } else {
        match parse_str_items(bytes.skip(1), k) {
            None => None,
            Some((ps, c)) => if 1 + c == bytes.len() {
                Some(ps)
            } else {
                None
            },
        }
    }
}

/// Appends a slice byte for byte.
fn push_bytes(out: &mut Vec<u8>, bytes: &[u8])
    ensures
        final(out)@ =~= old(out)@ + bytes@,
{
    let n = bytes.len();
    let mut i: usize = 0;
    while i < n
        invariant
            n == bytes@.len(),
            i <= n,
            out@ =~= old(out)@ + bytes@.take(i as int),
        decreases n - i,
    {
        out.push(bytes[i]);
        proof {
            assert(old(out)@ + bytes@.take(i + 1) =~= (old(out)@ + bytes@.take(i as int)).push(
                bytes@[i as int],
            ));
        }
        i = i + 1;
    }
    proof {
        assert(bytes@.take(n as int) =~= bytes@);
    }
}

/// Appends the minimal MessagePack string header for a payload of `n`
/// bytes, followed by nothing: the caller appends the payload.
fn push_str_header(out: &mut Vec<u8>, n: usize)
    requires
        n <= 0xffff_ffff,
    ensures
        ({
            let hdr = final(out)@.skip(old(out)@.len() as int);
            &&& old(out)@.len() <= final(out)@.len()
            &&& final(out)@.take(old(out)@.len() as int) =~= old(out)@
            &&& forall|rest: Seq<u8>|
                (#[trigger] parse_str_item(hdr + rest)) == (if rest.len() >= n {
                    Some((rest.take(n as int), hdr.len() + n))
                } else {
                    None::<(Seq<u8>, int)>
                })
        }),
{
    let ghost base = out@;
    if n <= 31 {
        let b = (0xa0 + n) as u8;
        proof {
            assert(b as usize == 0xa0 + n) by (bit_vector)
                requires
                    n <= 31usize && b == (0xa0 + n) as u8,
            ;
        }
        out.push(b);
        proof {
            let hdr = out@.skip(base.len() as int);
            assert(hdr =~= seq![b]);
            assert forall|rest: Seq<u8>|
                (#[trigger] parse_str_item(hdr + rest)) == (if rest.len() >= n {
                    Some((rest.take(n as int), hdr.len() + n))
                } else {
                    None::<(Seq<u8>, int)>
                }) by {
                let all = hdr + rest;
                assert(all[0] == b);
                if rest.len() >= n {
                    assert(all.subrange(1, 1 + n as int) =~= rest.take(n as int));
                }
            }
        }
    } else if n <= 0xff {
        let b = n as u8;
        proof {
            assert(b as usize == n) by (bit_vector)
                requires
                    n <= 0xffusize && b == n as u8,
            ;
        }
        out.push(0xd9);
        out.push(b);
        proof {
            let hdr = out@.skip(base.len() as int);
            assert(hdr =~= seq![0xd9u8, b]);
            assert forall|rest: Seq<u8>|
                (#[trigger] parse_str_item(hdr + rest)) == (if rest.len() >= n {
                    Some((rest.take(n as int), hdr.len() + n))
                } else {
                    None::<(Seq<u8>, int)>
                }) by {
                let all = hdr + rest;
                assert(all[0] == 0xd9u8);
                assert(all[1] == b);
                if rest.len() >= n {
                    assert(all.subrange(2, 2 + n as int) =~= rest.take(n as int));
                }
            }
        }
    } else if n <= 0xffff {
        let hi = (n >> 8) as u8;
        let lo = n as u8;
        proof {
            assert((hi as usize) * 0x100 + (lo as usize) == n) by (bit_vector)
                requires
                    n <= 0xffffusize && hi == (n >> 8) as u8 && lo == n as u8,
            ;
        }
        out.push(0xda);
        out.push(hi);
        out.push(lo);
        proof {
            let hdr = out@.skip(base.len() as int);
            assert(hdr =~= seq![0xdau8, hi, lo]);
            assert forall|rest: Seq<u8>|
                (#[trigger] parse_str_item(hdr + rest)) == (if rest.len() >= n {
                    Some((rest.take(n as int), hdr.len() + n))
                } else {
                    None::<(Seq<u8>, int)>
                }) by {
                let all = hdr + rest;
                assert(all[0] == 0xdau8);
                assert(all[1] == hi && all[2] == lo);
                assert((hi as int) * 0x100 + (lo as int) == n);
                if rest.len() >= n {
                    assert(all.subrange(3, 3 + n as int) =~= rest.take(n as int));
                }
            }
        }
    } else {
        let b1 = (n >> 24) as u8;
        let b2 = (n >> 16) as u8;
        let b3 = (n >> 8) as u8;
        let b4 = n as u8;
        proof {
            assert((b1 as usize) * 0x1000000 + (b2 as usize) * 0x10000 + (b3 as usize) * 0x100 + (
            b4 as usize) == n) by (bit_vector)
                requires
                    n <= 0xffff_ffffusize && b1 == (n >> 24) as u8 && b2 == (n >> 16) as u8 && b3
                        == (n >> 8) as u8 && b4 == n as u8,
            ;
        }
        out.push(0xdb);
        out.push(b1);
        out.push(b2);
        out.push(b3);
        out.push(b4);
        proof {
            let hdr = out@.skip(base.len() as int);
            assert(hdr =~= seq![0xdbu8, b1, b2, b3, b4]);
            assert forall|rest: Seq<u8>|
                (#[trigger] parse_str_item(hdr + rest)) == (if rest.len() >= n {
                    Some((rest.take(n as int), hdr.len() + n))
                } else {
                    None::<(Seq<u8>, int)>
                }) by {
                let all = hdr + rest;
                assert(all[0] == 0xdbu8);
                assert(all[1] == b1 && all[2] == b2 && all[3] == b3 && all[4] == b4);
                assert((b1 as int) * 0x1000000 + (b2 as int) * 0x10000 + (b3 as int) * 0x100 + (
                b4 as int) == n);
                if rest.len() >= n {
                    assert(all.subrange(5, 5 + n as int) =~= rest.take(n as int));
                }
            }
        }
    }
    proof {
        assert(out@.take(base.len() as int) =~= base);
    }
}

/// `bytes` is a complete encoding of one string item with payload `p`,
/// whatever follows it.
pub open spec fn item_builds(bytes: Seq<u8>, p: Seq<u8>) -> bool {
    forall|rest: Seq<u8>|
        (#[trigger] parse_str_item(bytes + rest)) == Some((p, bytes.len() as int))
}

/// Consecutive complete item encodings parse back to their payloads, in
/// order, consuming exactly their own bytes.
pub proof fn lemma_concat_parses(segs: Seq<Seq<u8>>, ps: Seq<Seq<u8>>)
    requires
        segs.len() == ps.len(),
        forall|i: int| 0 <= i < segs.len() ==> item_builds(#[trigger] segs[i], ps[i]),
    ensures
        forall|rest: Seq<u8>|
            (#[trigger] parse_str_items(segs.flatten() + rest, ps.len())) == Some(
                (ps, segs.flatten().len() as int),
            ),
    decreases segs.len(),
{
    if segs.len() == 0 {
        assert(segs.flatten() =~= Seq::<u8>::empty());
        assert forall|rest: Seq<u8>|
            (#[trigger] parse_str_items(segs.flatten() + rest, ps.len())) == Some(
                (ps, segs.flatten().len() as int),
            ) by {
            assert(ps =~= Seq::<Seq<u8>>::empty());
        }
    } else {
        let head = segs[0];
        let tail = segs.drop_first();
        let ptail = ps.drop_first();
        lemma_concat_parses(tail, ptail);
        assert(segs.flatten() =~= head + tail.flatten());
        assert forall|rest: Seq<u8>|
            (#[trigger] parse_str_items(segs.flatten() + rest, ps.len())) == Some(
                (ps, segs.flatten().len() as int),
            ) by {
            let inner = tail.flatten() + rest;
            assert(segs.flatten() + rest =~= head + inner);
            assert(parse_str_item(head + inner) == Some((ps[0], head.len() as int)));
            assert((head + inner).skip(head.len() as int) =~= inner);
            assert(parse_str_items(inner, ptail.len()) == Some(
                (ptail, tail.flatten().len() as int),
            ));
            assert(seq![ps[0]] + ptail =~= ps);
        }
    }
}

/// Encodes the string fields of one record as a MessagePack fixarray of
/// strings: the bytes parse back to exactly those fields.
pub fn encode_str_array(fields: &Vec<String>) -> (r: Vec<u8>)
    requires
        fields@.len() <= 15,
        forall|i: int|
            0 <= i < fields@.len() ==> encode_utf8((#[trigger] fields@[i])@).len()
                <= 0xffff_ffff,
    ensures
        parse_str_array(r@, fields@.len() as nat) == Some(
            fields@.map_values(|s: String| encode_utf8(s@)),
        ),
{
    broadcast use vstd::string::group_string_axioms;

    let k = fields.len();
    let arr = (0x90 + k) as u8;
    proof {
        assert(arr as usize == 0x90 + k) by (bit_vector)
            requires
                k <= 15usize && arr == (0x90 + k) as u8,
        ;
    }
    let mut out: Vec<u8> = Vec::new();
    out.push(arr);
    let ghost mut segs: Seq<Seq<u8>> = Seq::empty();
    let ghost mut payloads: Seq<Seq<u8>> = Seq::empty();
    let mut i: usize = 0;
    proof {
        assert(out@.skip(1) =~= segs.flatten());
    }
    while i < k
        invariant
            k == fields@.len() <= 15,
            i <= k,
            forall|j: int|
                0 <= j < fields@.len() ==> encode_utf8((#[trigger] fields@[j])@).len()
                    <= 0xffff_ffff,
            segs.len() == i,
            payloads.len() == i,
            forall|j: int| 0 <= j < i ==> item_builds(#[trigger] segs[j], payloads[j]),
            forall|j: int| 0 <= j < i ==> (#[trigger] payloads[j]) == encode_utf8(fields@[j]@),
            out@.len() >= 1,
            out@[0] == arr,
            out@.skip(1) =~= segs.flatten(),
        decreases k - i,
    {
        let s: &str = fields[i].as_str();
        let bytes: &[u8] = s.as_bytes();
        let n = bytes.len();
        let ghost before = out@;
        push_str_header(&mut out, n);
        let ghost hdr = out@.skip(before.len() as int);
        proof {
            assert(out@.take(before.len() as int) =~= before);
            assert(out@.len() >= before.len());
            assert forall|x: int| 0 <= x < out@.len() implies out@[x] == (before + hdr)[x] by {
                if x < before.len() {
                    assert(out@[x] == out@.take(before.len() as int)[x]);
                }
            }
            assert(out@ =~= before + hdr);
        }
        push_bytes(&mut out, bytes);
        proof {
            let seg = hdr + bytes@;
            assert(out@ =~= (before + hdr) + bytes@);
            assert(out@ =~= before + seg);
            assert forall|rest: Seq<u8>|
                (#[trigger] parse_str_item(seg + rest)) == Some((bytes@, seg.len() as int)) by {
                assert(seg + rest =~= hdr + (bytes@ + rest));
                assert((bytes@ + rest).len() >= n);
                assert((bytes@ + rest).take(n as int) =~= bytes@);
            }
            assert(item_builds(seg, bytes@));
            assert(bytes@ == encode_utf8(fields@[i as int]@));
            segs.lemma_flatten_push(seg);
            segs = segs.push(seg);
            payloads = payloads.push(bytes@);
            assert(out@.skip(1) =~= segs.flatten());
        }
        i = i + 1;
    }
    proof {
        lemma_concat_parses(segs, payloads);
        assert(segs.flatten() + Seq::<u8>::empty() =~= out@.skip(1));
        assert(parse_str_items(out@.skip(1), k as nat) == Some(
            (payloads, out@.skip(1).len() as int),
        ));
        assert(payloads =~= fields@.map_values(|s: String| encode_utf8(s@)));
    }
    out
}

/// The strings a byte message holds, by the reference parser: the payloads
/// of the parsed items, each decoded from UTF-8, or nothing when the shape
/// or an item's text is invalid.
pub open spec fn decoded_strings(bytes: Seq<u8>, k: nat) -> Option<Seq<Seq<char>>> {
    match parse_str_array(bytes, k) {
        None => None,
        Some(ps) => if forall|i: int| 0 <= i < ps.len() ==> valid_utf8(#[trigger] ps[i]) {
            Some(ps.map_values(|p: Seq<u8>| decode_utf8(p)))
        } else {
            None
        },
    }
}

/// Reads one string item starting at `off`: the payload bytes and the
/// position right after the item.
fn parse_one(bytes: &[u8], off: usize) -> (r: Option<(Vec<u8>, usize)>)
    requires
        off <= bytes@.len(),
    ensures
        match r {
            Some(pair) => {
                &&& off < pair.1 <= bytes@.len()
                &&& parse_str_item(bytes@.skip(off as int)) == Some(
                    (pair.0@, pair.1 - off),
                )
            },
            None => parse_str_item(bytes@.skip(off as int)) is None,
        },
{
    let len = bytes.len();
    let remaining = len - off;
    if remaining < 1 {
        return None;
    }
    let b0 = bytes[off];
    let (hdr_len, n): (usize, usize) = if 0xa0 <= b0 && b0 <= 0xbf {
        (1, (b0 - 0xa0) as usize)
    } else if b0 == 0xd9 {
        if remaining < 2 {
            return None;
        }
        (2, bytes[off + 1] as usize)
    } else if b0 == 0xda {
        if remaining < 3 {
            return None;
        }
        (3, (bytes[off + 1] as usize) * 0x100 + (bytes[off + 2] as usize))
    } else if b0 == 0xdb {
        if remaining < 5 {
            return None;
        }
        (
            5,
            (bytes[off + 1] as usize) * 0x1000000 + (bytes[off + 2] as usize) * 0x10000 + (
            bytes[off + 3] as usize) * 0x100 + (bytes[off + 4] as usize),
        )
    } else {
        return None;
    };
    if remaining < hdr_len || n > remaining - hdr_len {
        return None;
    }
    let start = off + hdr_len;
    let mut payload: Vec<u8> = Vec::new();
    let mut t: usize = 0;
    while t < n
        invariant
            start + n <= bytes@.len() <= usize::MAX,
            t <= n,
            payload@ =~= bytes@.subrange(start as int, start + t),
        decreases n - t,
    {
        payload.push(bytes[start + t]);
        proof {
            assert(payload@ =~= bytes@.subrange(start as int, start + t + 1));
        }
        t = t + 1;
    }
    proof {
        let tail = bytes@.skip(off as int);
        assert(tail[0] == b0);
        if hdr_len >= 2 {
            assert(tail[1] == bytes@[off + 1]);
        }
        if hdr_len >= 3 {
            assert(tail[2] == bytes@[off + 2]);
        }
        if hdr_len >= 5 {
            assert(tail[3] == bytes@[off + 3]);
            assert(tail[4] == bytes@[off + 4]);
        }
        assert(tail.subrange(hdr_len as int, hdr_len + n as int) =~= bytes@.subrange(
            start as int,
            start + n,
        ));
    }
    Some((payload, start + n))
}

/// Decodes a MessagePack fixarray of `k` strings, as the reference parser
/// reads it: the exact item payloads, each required to be valid UTF-8, with
/// nothing left over.
pub fn decode_str_array(bytes: &[u8], k: usize) -> (r: Option<Vec<String>>)
    ensures
        match r {
            Some(v) => v@.len() == k && decoded_strings(bytes@, k as nat) == Some(
                v@.map_values(|s: String| s@),
            ),
            None => decoded_strings(bytes@, k as nat) is None,
        },
{
    let len = bytes.len();
    if len < 1 || k > 15 {
        return None;
    }
    let b0 = bytes[0];
    if (b0 as usize) != 0x90 + k {
        return None;
    }
    let mut out: Vec<String> = Vec::new();
    let ghost mut payloads: Seq<Seq<u8>> = Seq::empty();
    let mut off: usize = 1;
    let mut j: usize = 0;
    proof {
        assert(bytes@.skip(1).skip(0) =~= bytes@.skip(1));
    }
    while j < k
        invariant
            k <= 15,
            1 <= off <= bytes@.len(),
            j <= k,
            len == bytes@.len(),
            bytes@.len() >= 1,
            bytes@[0] as int == 0x90 + k,
            out@.len() == j,
            payloads.len() == j,
            forall|i: int| 0 <= i < j ==> valid_utf8(#[trigger] payloads[i]),
            forall|i: int| 0 <= i < j ==> (#[trigger] out@[i])@ == decode_utf8(payloads[i]),
            parse_str_items(bytes@.skip(1), k as nat) == (match parse_str_items(
                bytes@.skip(off as int),
                (k - j) as nat,
            ) {
                None => None::<(Seq<Seq<u8>>, int)>,
                Some(pair) => Some((payloads + pair.0, (off - 1) + pair.1)),
            }),
        decreases k - j,
    {
        let parsed = parse_one(bytes, off);
        match parsed {
            None => {
                proof {
                    assert(parse_str_items(bytes@.skip(off as int), (k - j) as nat) is None);
                    assert(parse_str_items(bytes@.skip(1), k as nat) is None);
                }
                return None;
            },
            Some(pair) => {
                let (payload, off2) = pair;
                let ghost p = payload@;
                let ghost c = off2 - off;
                proof {
                    assert(bytes@.skip(off as int).skip(c as int) =~= bytes@.skip(off2 as int));
                }
                let text = string_from_utf8(payload);
                match text {
                    None => {
                        proof {
                            assert(parse_str_items(bytes@.skip(off as int), (k - j) as nat)
                                == (match parse_str_items(bytes@.skip(off2 as int), (k - j
                                - 1) as nat) {
                                None => None::<(Seq<Seq<u8>>, int)>,
                                Some(pair2) => Some((seq![p] + pair2.0, c + pair2.1)),
                            }));
                            if parse_str_array(bytes@, k as nat) is Some {
                                let all = parse_str_items(bytes@.skip(1), k as nat);
                                assert(all is Some);
                                let ps = all->Some_0.0;
                                assert(ps[j as int] == p);
                                assert(!valid_utf8(ps[j as int]));
                            }
                        }
                        return None;
                    },
                    Some(text) => {
                        let ghost out0 = out@;
                        let ghost payloads0 = payloads;
                        out.push(text);
                        proof {
                            payloads = payloads0.push(p);
                            assert(parse_str_items(bytes@.skip(off as int), (k - j) as nat)
                                == (match parse_str_items(bytes@.skip(off2 as int), (k - j
                                - 1) as nat) {
                                None => None::<(Seq<Seq<u8>>, int)>,
                                Some(pair2) => Some((seq![p] + pair2.0, c + pair2.1)),
                            }));
                            assert forall|rest: Seq<Seq<u8>>|
                                #[trigger] (payloads0 + (seq![p] + rest)) =~= payloads
                                    + rest by {}
                            assert(parse_str_items(bytes@.skip(1), k as nat) == (
                            match parse_str_items(bytes@.skip(off2 as int), (k - j - 1) as nat) {
                                None => None::<(Seq<Seq<u8>>, int)>,
                                Some(pair2) => Some((payloads + pair2.0, (off2 - 1) + pair2.1)),
                            }));
                        }
                        off = off2;
                        j = j + 1;
                        proof {
                            assert forall|i: int| 0 <= i < j implies valid_utf8(
                                #[trigger] payloads[i],
                            ) by {
                                if i < j - 1 {
                                    assert(payloads[i] == payloads0[i]);
                                } else {
                                    assert(payloads[i] == p);
                                }
                            }
                            assert forall|i: int|
                                0 <= i < j implies (#[trigger] out@[i])@ == decode_utf8(
                                payloads[i],
                            ) by {
                                if i < j - 1 {
                                    assert(payloads[i] == payloads0[i]);
                                    assert(out@[i] == out0[i]);
                                } else {
                                    assert(payloads[i] == p);
                                    assert(out@[i] == out0.push(text)[i]);
                                }
                            }
                        }
                    },
                }
            },
        }
    }
    if off != len {
        proof {
            assert(parse_str_items(bytes@.skip(off as int), 0) == Some(
                (Seq::<Seq<u8>>::empty(), 0int),
            ));
            assert(payloads + Seq::<Seq<u8>>::empty() =~= payloads);
            assert(parse_str_array(bytes@, k as nat) is None);
        }
        return None;
    }
    proof {
        assert(parse_str_items(bytes@.skip(off as int), 0) == Some(
            (Seq::<Seq<u8>>::empty(), 0int),
        ));
        assert(payloads + Seq::<Seq<u8>>::empty() =~= payloads);
        assert(parse_str_array(bytes@, k as nat) == Some(payloads));
        assert(forall|i: int| 0 <= i < payloads.len() ==> valid_utf8(#[trigger] payloads[i]));
        assert(out@.map_values(|s: String| s@) =~= payloads.map_values(
            |p: Seq<u8>| decode_utf8(p),
        ));
        assert(decoded_strings(bytes@, k as nat) == Some(payloads.map_values(
            |p: Seq<u8>| decode_utf8(p),
        )));
    }
    Some(out)
}

/// Encoding a record's fields and decoding the bytes gives the fields back.
pub proof fn lemma_encode_then_decode(bytes: Seq<u8>, views: Seq<Seq<char>>, k: nat)
    requires
        parse_str_array(bytes, k) == Some(views.map_values(|v: Seq<char>| encode_utf8(v))),
    ensures
        decoded_strings(bytes, k) == Some(views),
{
    broadcast use vstd::utf8::encode_utf8_valid_utf8;
    broadcast use vstd::utf8::encode_utf8_decode_utf8;

    let ps = views.map_values(|v: Seq<char>| encode_utf8(v));
    assert(forall|i: int| 0 <= i < ps.len() ==> valid_utf8(#[trigger] ps[i]));
    assert(ps.map_values(|p: Seq<u8>| decode_utf8(p)) =~= views);
}

} // verus!
