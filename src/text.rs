//! Text handed over by the discovery daemon as NUL-terminated byte strings.

use vstd::prelude::*;
use vstd::utf8::{decode_utf8, valid_utf8};

verus! {

/// What a byte string decodes to as UTF-8, or `None` where it is not valid.
pub open spec fn decoded(b: Seq<u8>) -> Option<Seq<char>> {
    if valid_utf8(b) {
        Some(decode_utf8(b))
    } else {
        None
    }
}

/// The C string held at the start of a buffer: the bytes before its first
/// NUL, or the whole buffer where it holds no NUL.
pub open spec fn c_text_of(buf: Seq<u8>) -> Seq<u8>
    decreases buf.len(),
{
    if buf.len() == 0 {
        buf
    } else if buf[0] == 0 {
        Seq::empty()
    } else {
        seq![buf[0]] + c_text_of(buf.drop_first())
    }
}

proof fn lemma_c_text_of(buf: Seq<u8>, i: int)
    requires
        0 <= i <= buf.len(),
        forall|k: int| 0 <= k < i ==> buf[k] != 0u8,
        i == buf.len() || buf[i] == 0u8,
    ensures
        c_text_of(buf) == buf.subrange(0, i),
    decreases i,
{
    if i == 0 {
        if buf.len() == 0 {
            assert(buf.subrange(0, 0) =~= buf);
        } else {
            assert(buf.subrange(0, 0) =~= Seq::<u8>::empty());
        }
    } else {
        let rest = buf.drop_first();
        assert forall|k: int| 0 <= k < i - 1 implies rest[k] != 0u8 by {
            assert(rest[k] == buf[k + 1]);
        }
        lemma_c_text_of(rest, i - 1);
        assert(buf.subrange(0, i) =~= seq![buf[0]] + rest.subrange(0, i - 1));
    }
}

/// Relies on std::str::from_utf8: it succeeds exactly on valid UTF-8, and the
/// text it gives holds the decoded characters.
#[verifier::external_body]
fn utf8_text(b: &[u8]) -> (r: Option<String>)
    ensures
        r.is_some() == valid_utf8(b@),
        r matches Some(s) ==> s@ == decode_utf8(b@),
{
    match std::str::from_utf8(b) {
        Ok(s) => Some(s.to_string()),
        Err(_) => None,
    }
}

/// Decodes a byte string as UTF-8 text.
pub fn decode_text(b: &[u8]) -> (r: Option<String>)
    ensures
        match r {
            Some(s) => decoded(b@) == Some(s@),
            None => decoded(b@) is None,
        },
{
    utf8_text(b)
}

/// The C string at the start of a buffer that a formatting routine wrote into.
pub fn c_text(buf: &[u8]) -> (t: Vec<u8>)
    ensures
        t@ == c_text_of(buf@),
{
    let mut t: Vec<u8> = Vec::new();
    let mut i: usize = 0;
    while i < buf.len() && buf[i] != 0
        invariant
            i <= buf.len(),
            t@ == buf@.subrange(0, i as int),
            forall|k: int| 0 <= k < i ==> buf@[k] != 0u8,
        decreases buf.len() - i,
    {
        t.push(buf[i]);
        i = i + 1;
        assert(t@ =~= buf@.subrange(0, i as int));
    }
    proof {
        lemma_c_text_of(buf@, i as int);
    }
    t
}

/// Decodes the C string at the start of a buffer.
pub fn decode_c_text(buf: &[u8]) -> (r: Option<String>)
    ensures
        match r {
            Some(s) => decoded(c_text_of(buf@)) == Some(s@),
            None => decoded(c_text_of(buf@)) is None,
        },
{
    let t = c_text(buf);
    decode_text(t.as_slice())
}

} // verus!
