use vstd::prelude::*;

verus! {

// Unpadded base64url: the textual payload form of every derivation prefix.
// Encoding takes bytes three at a time into four alphabet characters; a final
// group of one or two bytes becomes two or three characters whose unused low
// bits must be zero, so decoding accepts exactly the canonical encodings.

/// The base64url alphabet: value `v < 64` to its ASCII character.
pub open spec fn b64_char(v: u8) -> u8 {
    if v < 26 {
        ('A' as u8 + v) as u8
    } else if v < 52 {
        ('a' as u8 + (v - 26)) as u8
    } else if v < 62 {
        ('0' as u8 + (v - 52)) as u8
    } else if v == 62 {
        '-' as u8
    } else {
        '_' as u8
    }
}

/// Inverse of the alphabet: `None` for a character outside it.
pub open spec fn b64_inv(c: u8) -> Option<u8> {
    if 'A' as u8 <= c && c <= 'Z' as u8 {
        Some((c - 'A' as u8) as u8)
    } else if 'a' as u8 <= c && c <= 'z' as u8 {
        Some((c - 'a' as u8 + 26) as u8)
    } else if '0' as u8 <= c && c <= '9' as u8 {
        Some((c - '0' as u8 + 52) as u8)
    } else if c == '-' as u8 {
        Some(62u8)
    } else if c == '_' as u8 {
        Some(63u8)
    } else {
        None
    }
}

/// Unpadded base64url encoding of a byte sequence.
pub open spec fn b64_enc(t: Seq<u8>) -> Seq<u8>
    decreases t.len(),
{
    if t.len() == 0 {
        Seq::empty()
    } else if t.len() == 1 {
        seq![b64_char(t[0] >> 2), b64_char((t[0] & 3) << 4)]
    } else if t.len() == 2 {
        seq![
            b64_char(t[0] >> 2),
            b64_char(((t[0] & 3) << 4) | (t[1] >> 4)),
            b64_char((t[1] & 15) << 2),
        ]
    } else {
        seq![
            b64_char(t[0] >> 2),
            b64_char(((t[0] & 3) << 4) | (t[1] >> 4)),
            b64_char(((t[1] & 15) << 2) | (t[2] >> 6)),
            b64_char(t[2] & 63),
        ] + b64_enc(t.skip(3))
    }
}

/// Decoding: `Some` exactly on canonical encodings, giving the bytes back.
pub open spec fn b64_dec(t: Seq<u8>) -> Option<Seq<u8>>
    decreases t.len(),
{
    if t.len() == 0 {
        Some(Seq::empty())
    } else if t.len() == 1 {
        None
    } else if t.len() == 2 {
        match (b64_inv(t[0]), b64_inv(t[1])) {
            (Some(v0), Some(v1)) => if v1 & 15 == 0 {
                Some(seq![((v0 << 2) | (v1 >> 4)) as u8])
            } else {
                None
            },
            _ => None,
        }
    } else if t.len() == 3 {
        match (b64_inv(t[0]), b64_inv(t[1]), b64_inv(t[2])) {
            (Some(v0), Some(v1), Some(v2)) => if v2 & 3 == 0 {
                Some(seq![((v0 << 2) | (v1 >> 4)) as u8, (((v1 & 15) << 4) | (v2 >> 2)) as u8])
            } else {
                None
            },
            _ => None,
        }
    } else {
        match (b64_inv(t[0]), b64_inv(t[1]), b64_inv(t[2]), b64_inv(t[3])) {
            (Some(v0), Some(v1), Some(v2), Some(v3)) => match b64_dec(t.skip(4)) {
                Some(rest) => Some(
                    seq![
                        ((v0 << 2) | (v1 >> 4)) as u8,
                        (((v1 & 15) << 4) | (v2 >> 2)) as u8,
                        (((v2 & 3) << 6) | v3) as u8,
                    ] + rest,
                ),
                None => None,
            },
            _ => None,
        }
    }
}

/// An unpadded encoding of `n` bytes has `(4n + 2) / 3` characters.
pub proof fn lemma_b64_enc_len(t: Seq<u8>)
    ensures
        b64_enc(t).len() == (t.len() * 4 + 2) / 3,
    decreases t.len(),
{
    if t.len() >= 3 {
        lemma_b64_enc_len(t.skip(3));
    }
}

/// The alphabet and its inverse agree, in both directions.
pub proof fn lemma_b64_char_inv(v: u8)
    requires
        v < 64,
    ensures
        b64_inv(b64_char(v)) == Some(v),
{
}

pub proof fn lemma_b64_inv_char(c: u8)
    requires
        b64_inv(c) is Some,
    ensures
        b64_inv(c)->Some_0 < 64,
        b64_char(b64_inv(c)->Some_0) == c,
{
}

/// Decoding inverts encoding: every byte sequence round-trips.
pub proof fn lemma_b64_round_trip(t: Seq<u8>)
    ensures
        b64_dec(b64_enc(t)) == Some(t),
    decreases t.len(),
{
    if t.len() == 0 {
        assert(b64_dec(b64_enc(t)) =~= Some(t));
    } else if t.len() == 1 {
        let b0 = t[0];
        assert(b0 >> 2 < 64 && (b0 & 3) << 4 < 64) by (bit_vector);
        lemma_b64_char_inv(b0 >> 2);
        lemma_b64_char_inv((b0 & 3) << 4);
        assert(((b0 & 3) << 4) & 15 == 0) by (bit_vector);
        assert((((b0 >> 2) << 2) | (((b0 & 3) << 4) >> 4)) == b0) by (bit_vector);
        assert(b64_dec(b64_enc(t)) =~= Some(t));
    } else if t.len() == 2 {
        let b0 = t[0];
        let b1 = t[1];
        assert(b0 >> 2 < 64 && ((b0 & 3) << 4) | (b1 >> 4) < 64 && (b1 & 15) << 2 < 64)
            by (bit_vector);
        lemma_b64_char_inv(b0 >> 2);
        lemma_b64_char_inv(((b0 & 3) << 4) | (b1 >> 4));
        lemma_b64_char_inv((b1 & 15) << 2);
        assert(((b1 & 15) << 2) & 3 == 0) by (bit_vector);
        assert((((b0 >> 2) << 2) | ((((b0 & 3) << 4) | (b1 >> 4)) >> 4)) == b0) by (bit_vector);
        assert(((((((b0 & 3) << 4) | (b1 >> 4)) & 15) << 4) | (((b1 & 15) << 2) >> 2)) == b1)
            by (bit_vector);
        assert(b64_dec(b64_enc(t)) =~= Some(t));
    } else {
        let b0 = t[0];
        let b1 = t[1];
        let b2 = t[2];
        assert(b0 >> 2 < 64 && ((b0 & 3) << 4) | (b1 >> 4) < 64 && ((b1 & 15) << 2) | (b2 >> 6)
            < 64 && b2 & 63 < 64) by (bit_vector);
        lemma_b64_char_inv(b0 >> 2);
        lemma_b64_char_inv(((b0 & 3) << 4) | (b1 >> 4));
        lemma_b64_char_inv(((b1 & 15) << 2) | (b2 >> 6));
        lemma_b64_char_inv(b2 & 63);
        assert((((b0 >> 2) << 2) | ((((b0 & 3) << 4) | (b1 >> 4)) >> 4)) == b0) by (bit_vector);
        assert(((((((b0 & 3) << 4) | (b1 >> 4)) & 15) << 4) | ((((b1 & 15) << 2) | (b2 >> 6))
            >> 2)) == b1) by (bit_vector);
        assert(((((((b1 & 15) << 2) | (b2 >> 6)) & 3) << 6) | (b2 & 63)) == b2) by (bit_vector);
        lemma_b64_round_trip(t.skip(3));
        lemma_b64_enc_len(t.skip(3));
        assert(b64_enc(t).skip(4) =~= b64_enc(t.skip(3)));
        assert(seq![b0, b1, b2] + t.skip(3) =~= t);
        assert(b64_dec(b64_enc(t)) == Some(seq![b0, b1, b2] + t.skip(3)));
    }
}

/// Encoding inverts decoding: whatever decodes was a canonical encoding.
pub proof fn lemma_b64_dec_enc(t: Seq<u8>)
    requires
        b64_dec(t) is Some,
    ensures
        b64_enc(b64_dec(t)->Some_0) == t,
    decreases t.len(),
{
    if t.len() == 0 {
        assert(b64_enc(b64_dec(t)->Some_0) =~= t);
    } else if t.len() == 2 {
        let v0 = b64_inv(t[0])->Some_0;
        let v1 = b64_inv(t[1])->Some_0;
        lemma_b64_inv_char(t[0]);
        lemma_b64_inv_char(t[1]);
        let b0 = ((v0 << 2) | (v1 >> 4)) as u8;
        assert(v0 < 64 && v1 < 64 && v1 & 15 == 0 ==> ((v0 << 2) | (v1 >> 4)) >> 2 == v0
            && ((((v0 << 2) | (v1 >> 4)) & 3) << 4) == v1) by (bit_vector);
        assert(b64_enc(b64_dec(t)->Some_0) =~= t);
    } else if t.len() == 3 {
        let v0 = b64_inv(t[0])->Some_0;
        let v1 = b64_inv(t[1])->Some_0;
        let v2 = b64_inv(t[2])->Some_0;
        lemma_b64_inv_char(t[0]);
        lemma_b64_inv_char(t[1]);
        lemma_b64_inv_char(t[2]);
        assert(v0 < 64 && v1 < 64 && v2 < 64 && v2 & 3 == 0 ==> {
            let b0 = ((v0 << 2) | (v1 >> 4)) as u8;
            let b1 = (((v1 & 15) << 4) | (v2 >> 2)) as u8;
            b0 >> 2 == v0 && (((b0 & 3) << 4) | (b1 >> 4)) == v1 && ((b1 & 15) << 2) == v2
        }) by (bit_vector);
        assert(b64_enc(b64_dec(t)->Some_0) =~= t);
    } else {
        let v0 = b64_inv(t[0])->Some_0;
        let v1 = b64_inv(t[1])->Some_0;
        let v2 = b64_inv(t[2])->Some_0;
        let v3 = b64_inv(t[3])->Some_0;
        lemma_b64_inv_char(t[0]);
        lemma_b64_inv_char(t[1]);
        lemma_b64_inv_char(t[2]);
        lemma_b64_inv_char(t[3]);
        assert(v0 < 64 && v1 < 64 && v2 < 64 && v3 < 64 ==> {
            let b0 = ((v0 << 2) | (v1 >> 4)) as u8;
            let b1 = (((v1 & 15) << 4) | (v2 >> 2)) as u8;
            let b2 = (((v2 & 3) << 6) | v3) as u8;
            b0 >> 2 == v0 && (((b0 & 3) << 4) | (b1 >> 4)) == v1 && (((b1 & 15) << 2) | (b2 >> 6))
                == v2 && (b2 & 63) == v3
        }) by (bit_vector);
        lemma_b64_dec_enc(t.skip(4));
        let rest = b64_dec(t.skip(4))->Some_0;
        let b = b64_dec(t)->Some_0;
        assert(b.skip(3) =~= rest);
        assert(b64_enc(b) =~= t);
    }
}

/// The exec alphabet, equal to its specification.
pub fn b64_char_e(v: u8) -> (r: u8)
    requires
        v < 64,
    ensures
        r == b64_char(v),
{
    if v < 26 {
        'A' as u8 + v
    } else if v < 52 {
        'a' as u8 + (v - 26)
    } else if v < 62 {
        '0' as u8 + (v - 52)
    } else if v == 62 {
        '-' as u8
    } else {
        '_' as u8
    }
}

/// The exec inverse alphabet, equal to its specification.
pub fn b64_inv_e(c: u8) -> (r: Option<u8>)
    ensures
        r == b64_inv(c),
{
    if 'A' as u8 <= c && c <= 'Z' as u8 {
        Some(c - 'A' as u8)
    } else if 'a' as u8 <= c && c <= 'z' as u8 {
        Some(c - 'a' as u8 + 26)
    } else if '0' as u8 <= c && c <= '9' as u8 {
        Some(c - '0' as u8 + 52)
    } else if c == '-' as u8 {
        Some(62u8)
    } else if c == '_' as u8 {
        Some(63u8)
    } else {
        None
    }
}

/// Appends the encoding of `s[i..]` to `out`.
pub fn b64_push(out: &mut Vec<u8>, s: &[u8], i: usize)
    requires
        i <= s@.len(),
    ensures
        final(out)@ == old(out)@ + b64_enc(s@.skip(i as int)),
    decreases s@.len() - i,
{
    let n = s.len() - i;
    if n == 0 {
        assert(out@ =~= old(out)@ + b64_enc(s@.skip(i as int)));
    } else if n == 1 {
        let b0 = s[i];
        assert(b0 >> 2 < 64 && (b0 & 3) << 4 < 64) by (bit_vector);
        out.push(b64_char_e(b0 >> 2));
        out.push(b64_char_e((b0 & 3) << 4));
        assert(s@.skip(i as int) =~= seq![b0]);
        assert(out@ =~= old(out)@ + b64_enc(s@.skip(i as int)));
    } else if n == 2 {
        let b0 = s[i];
        let b1 = s[i + 1];
        assert(b0 >> 2 < 64 && ((b0 & 3) << 4) | (b1 >> 4) < 64 && (b1 & 15) << 2 < 64)
            by (bit_vector);
        out.push(b64_char_e(b0 >> 2));
        out.push(b64_char_e(((b0 & 3) << 4) | (b1 >> 4)));
        out.push(b64_char_e((b1 & 15) << 2));
        assert(s@.skip(i as int) =~= seq![b0, b1]);
        assert(out@ =~= old(out)@ + b64_enc(s@.skip(i as int)));
    } else {
        let b0 = s[i];
        let b1 = s[i + 1];
        let b2 = s[i + 2];
        assert(b0 >> 2 < 64 && ((b0 & 3) << 4) | (b1 >> 4) < 64 && ((b1 & 15) << 2) | (b2 >> 6)
            < 64 && b2 & 63 < 64) by (bit_vector);
        out.push(b64_char_e(b0 >> 2));
        out.push(b64_char_e(((b0 & 3) << 4) | (b1 >> 4)));
        out.push(b64_char_e(((b1 & 15) << 2) | (b2 >> 6)));
        out.push(b64_char_e(b2 & 63));
        b64_push(out, s, i + 3);
        let ghost t = s@.skip(i as int);
        assert(t.len() >= 3);
        assert(t[0] == b0 && t[1] == b1 && t[2] == b2);
        assert(s@.skip(i as int + 3) =~= t.skip(3));
        assert(out@ =~= old(out)@ + b64_enc(t));
    }
}

/// Appends the decoding of `s[i..j]` to `out`; `false` when it is not canonical.
pub fn b64_pull(out: &mut Vec<u8>, s: &[u8], i: usize, j: usize) -> (ok: bool)
    requires
        i <= j <= s@.len(),
    ensures
        ok == (b64_dec(s@.subrange(i as int, j as int)) is Some),
        ok ==> final(out)@ == old(out)@ + b64_dec(s@.subrange(i as int, j as int))->Some_0,
    decreases j - i,
{
    let ghost t = s@.subrange(i as int, j as int);
    let n = j - i;
    if n == 0 {
        assert(out@ =~= old(out)@ + b64_dec(t)->Some_0);
        true
    } else if n == 1 {
        false
    } else if n == 2 {
        match (b64_inv_e(s[i]), b64_inv_e(s[i + 1])) {
            (Some(v0), Some(v1)) => {
                if v1 & 15 == 0 {
                    out.push((v0 << 2) | (v1 >> 4));
                    assert(out@ =~= old(out)@ + b64_dec(t)->Some_0);
                    true
                } else {
                    false
                }
            },
            _ => false,
        }
    } else if n == 3 {
        match (b64_inv_e(s[i]), b64_inv_e(s[i + 1]), b64_inv_e(s[i + 2])) {
            (Some(v0), Some(v1), Some(v2)) => {
                if v2 & 3 == 0 {
                    out.push((v0 << 2) | (v1 >> 4));
                    out.push(((v1 & 15) << 4) | (v2 >> 2));
                    assert(out@ =~= old(out)@ + b64_dec(t)->Some_0);
                    true
                } else {
                    false
                }
            },
            _ => false,
        }
    } else {
        match (b64_inv_e(s[i]), b64_inv_e(s[i + 1]), b64_inv_e(s[i + 2]), b64_inv_e(s[i + 3])) {
            (Some(v0), Some(v1), Some(v2), Some(v3)) => {
                out.push((v0 << 2) | (v1 >> 4));
                out.push(((v1 & 15) << 4) | (v2 >> 2));
                out.push(((v2 & 3) << 6) | v3);
                let ok = b64_pull(out, s, i + 4, j);
                assert(s@.subrange(i as int + 4, j as int) =~= t.skip(4));
                if ok {
                    assert(out@ =~= old(out)@ + b64_dec(t)->Some_0);
                }
                ok
            },
            _ => false,
        }
    }
}

} // verus!
