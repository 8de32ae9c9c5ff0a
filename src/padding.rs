//! PKCS#7 padding to 16-byte blocks.

use vstd::prelude::*;

verus! {

/// Why padded data could not be unpadded.
#[derive(Clone, Copy, Debug, PartialEq, Eq, Structural)]
pub enum PaddingError {
    Empty,
    BadPadding,
}

/// How many bytes padding adds to data of length `len`: from 1 to 16.
pub open spec fn pad_len(len: nat) -> nat {
    (16 - (len % 16)) as nat
}

pub open spec fn pkcs7_padded(s: Seq<u8>) -> Seq<u8> {
    s + Seq::new(pad_len(s.len()), |_i: int| pad_len(s.len()) as u8)
}

/// Strips the padding that the last byte announces.
pub open spec fn pkcs7_unpadded(s: Seq<u8>) -> Result<Seq<u8>, PaddingError> {
    if s.len() == 0 {
        Err(PaddingError::Empty)
    } else if s.last() == 0 || s.last() > 16 || s.len() < s.last() {
        Err(PaddingError::BadPadding)
    } else {
        Ok(s.subrange(0, s.len() - s.last()))
    }
}

pub fn pkcs7_pad(data: &[u8]) -> (r: Vec<u8>)
    requires
        data@.len() + 16 <= usize::MAX,
    ensures
        r@ == pkcs7_padded(data@),
        r@.len() % 16 == 0,
{
    let p = 16 - (data.len() % 16);
    let mut out: Vec<u8> = Vec::new();
    let mut i: usize = 0;
    while i < data.len()
        invariant
            i <= data@.len(),
            out@ == data@.subrange(0, i as int),
        decreases data@.len() - i,
    {
        out.push(data[i]);
        i += 1;
    }
    let mut k: usize = 0;
    while k < p
        invariant
            p == pad_len(data@.len()),
            k <= p,
            out@ == data@ + Seq::new(k as nat, |_i: int| p as u8),
        decreases p - k,
    {
        out.push(p as u8);
        k += 1;
        assert(out@ =~= data@ + Seq::new(k as nat, |_i: int| p as u8));
    }
    assert(out@ =~= pkcs7_padded(data@));
    out
}

pub fn pkcs7_unpad(data: &[u8]) -> (r: Result<Vec<u8>, PaddingError>)
    ensures
        match pkcs7_unpadded(data@) {
            Ok(s) => r matches Ok(v) && v@ == s,
            Err(e) => r == Err::<Vec<u8>, PaddingError>(e),
        },
{
    if data.len() == 0 {
        return Err(PaddingError::Empty);
    }
    let p = data[data.len() - 1] as usize;
    if p == 0 || p > 16 || data.len() < p {
        return Err(PaddingError::BadPadding);
    }
    let end = data.len() - p;
    let mut out: Vec<u8> = Vec::new();
    let mut i: usize = 0;
    while i < end
        invariant
            end <= data@.len(),
            i <= end,
            out@ == data@.subrange(0, i as int),
        decreases end - i,
    {
        out.push(data[i]);
        i += 1;
    }
    Ok(out)
}

/// Unpadding padded data gives the data back.
pub proof fn lemma_pkcs7_round_trip(s: Seq<u8>)
    ensures
        pkcs7_unpadded(pkcs7_padded(s)) == Ok::<Seq<u8>, PaddingError>(s),
{
    let p = pkcs7_padded(s);
    assert(p.last() == pad_len(s.len()) as u8);
    assert(p.subrange(0, p.len() - p.last()) =~= s);
}

} // verus!
