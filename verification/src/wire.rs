//! The messages between the wrappers and the server, with byte strings sent as base64 text.

use vstd::prelude::*;
use base64::Engine;
use crate::error::{Error, ErrorView};
use crate::wrapped_binary::WrappedBinary;

verus! {

/// The base64 text, standard alphabet with padding, of a byte string.
pub uninterp spec fn base64_encoded(bytes: Seq<u8>) -> Seq<char>;

/// The bytes that a base64 text, standard alphabet with canonical padding, stands for;
/// `None` where it is not such a text.
pub uninterp spec fn base64_decoded(text: Seq<char>) -> Option<Seq<u8>>;

/// What the error of `base64`'s standard engine says of a text that stands for no bytes:
/// the invalid symbol and its offset, the invalid length, or the invalid padding.
pub uninterp spec fn base64_error_text(text: Seq<char>) -> Seq<char>;

/// The length of the base64 text of `n` bytes fits in memory.
pub open spec fn encodable_len(n: nat) -> bool {
    (n / 3) * 4 + (if n % 3 > 0 { 4int } else { 0int }) <= usize::MAX
}

/// Calls `Engine::encode` of `base64`'s standard engine: the text is the encoding of the
/// bytes, and decoding it with the same engine gives the bytes back. The engine panics
/// where the length of the text would not fit in a `usize`; `requires` leaves that out.
#[verifier::external_body]
fn base64_encode(bytes: &[u8]) -> (res: String)
    requires
        encodable_len(bytes@.len()),
    ensures
        res@ == base64_encoded(bytes@),
        base64_decoded(res@) == Some(bytes@),
{
    base64::engine::general_purpose::STANDARD.encode(bytes)
}

/// A character of the standard base64 alphabet, or the padding `=`.
pub open spec fn is_base64_symbol(c: char) -> bool {
    ('A' <= c && c <= 'Z') || ('a' <= c && c <= 'z') || ('0' <= c && c <= '9') || c == '+' || c
        == '/' || c == '='
}

/// Calls `Engine::decode` of `base64`'s standard engine: the bytes that the text stands
/// for, or, where it stands for none, the text that the engine's error displays. A text
/// holding a character that is neither of the alphabet nor padding stands for none: the
/// engine reports an invalid byte.
#[verifier::external_body]
fn base64_decode(text: &str) -> (res: Result<Vec<u8>, String>)
    ensures
        match res {
            Ok(v) => base64_decoded(text@) == Some(v@),
            Err(m) => base64_decoded(text@) is None && m@ == base64_error_text(text@),
        },
        (exists|i: int| 0 <= i < text@.len() && !is_base64_symbol(#[trigger] text@[i])) ==> res is Err,
{
    match base64::engine::general_purpose::STANDARD.decode(text) {
        Ok(v) => Ok(v),
        Err(e) => Err(e.to_string()),
    }
}

/// The bytes that a base64 text stands for.
fn decode_bytes(text: &String) -> (res: Result<Vec<u8>, Error>)
    ensures
        match res {
            Ok(v) => base64_decoded(text@) == Some(v@),
            Err(e) => base64_decoded(text@) is None && e@ == ErrorView::InvalidBase64(
                base64_error_text(text@),
            ),
        },
        (exists|i: int| 0 <= i < text@.len() && !is_base64_symbol(#[trigger] text@[i])) ==> res is Err,
{
    match base64_decode(text.as_str()) {
        Ok(v) => Ok(v),
        Err(m) => Err(Error::InvalidBase64(m)),
    }
}

/// A command to run: the binary, its arguments and its directory, as byte strings.
#[derive(Debug, Clone)]
pub struct RunRequestData {
    pub binary: WrappedBinary,
    pub args: Vec<Vec<u8>>,
    pub cwd: Vec<u8>,
}

/// A [`RunRequestData`] as sent: its byte strings as base64 text.
#[derive(Debug, Clone)]
pub struct RunRequestDataWire {
    pub binary: WrappedBinary,
    pub args: Vec<String>,
    pub cwd: String,
}

/// What a command printed, and its exit status.
#[derive(Debug, Clone)]
pub struct RunResponseData {
    pub stdout: Vec<u8>,
    pub stderr: Vec<u8>,
    pub status: i32,
}

/// A [`RunResponseData`] as sent: its byte strings as base64 text.
#[derive(Debug, Clone, Default)]
pub struct RunResponseDataWire {
    pub stdout: String,
    pub stderr: String,
    pub status: i32,
}

/// Every byte string of the list can be sent.
pub open spec fn all_encodable(v: Seq<Seq<u8>>) -> bool {
    forall|i: int| 0 <= i < v.len() ==> encodable_len(#[trigger] v[i].len())
}

/// The byte strings of the list, each decoded, or `None` where one does not decode.
pub open spec fn decode_all(v: Seq<Seq<char>>) -> Option<Seq<Seq<u8>>>
    decreases v.len(),
{
    if v.len() == 0 {
        Some(Seq::empty())
    } else {
        match (decode_all(v.drop_last()), base64_decoded(v.last())) {
            (Some(init), Some(x)) => Some(init.push(x)),
            _ => None,
        }
    }
}

impl RunRequestData {
    /// The request as sent. Decoding what is sent gives the request back.
    pub fn to_wire(self) -> (res: RunRequestDataWire)
        requires
            all_encodable(self.args@.map_values(|b: Vec<u8>| b@)),
            encodable_len(self.cwd@.len()),
        ensures
            res.binary == self.binary,
            res.cwd@ == base64_encoded(self.cwd@),
            res.args@.map_values(|s: String| s@) == self.args@.map_values(
                |b: Vec<u8>| base64_encoded(b@),
            ),
            base64_decoded(res.cwd@) == Some(self.cwd@),
            decode_all(res.args@.map_values(|s: String| s@)) == Some(
                self.args@.map_values(|b: Vec<u8>| b@),
            ),
    {
        let cwd = base64_encode(self.cwd.as_slice());
        let mut args: Vec<String> = Vec::new();
        let mut i: usize = 0;
        let ghost raw = self.args@.map_values(|b: Vec<u8>| b@);
        while i < self.args.len()
            invariant
                i <= self.args@.len(),
                raw == self.args@.map_values(|b: Vec<u8>| b@),
                all_encodable(raw),
                args@.map_values(|s: String| s@) == self.args@.take(i as int).map_values(
                    |b: Vec<u8>| base64_encoded(b@),
                ),
                decode_all(args@.map_values(|s: String| s@)) == Some(raw.take(i as int)),
            decreases self.args@.len() - i,
        {
            proof {
                assert(encodable_len(raw[i as int].len()));
            }
            let e = base64_encode(self.args[i].as_slice());
            let ghost before = args@.map_values(|s: String| s@);
            args.push(e);
            proof {
                let now = args@.map_values(|s: String| s@);
                assert(now =~= before.push(e@));
                assert(now.drop_last() =~= before);
                assert(self.args@.take(i + 1).map_values(|b: Vec<u8>| base64_encoded(b@))
                    =~= self.args@.take(i as int).map_values(|b: Vec<u8>| base64_encoded(b@)).push(
                    e@,
                ));
                assert(raw.take(i + 1) =~= raw.take(i as int).push(self.args@[i as int]@));
            }
            i = i + 1;
        }
        proof {
            assert(self.args@.take(self.args@.len() as int) =~= self.args@);
            assert(raw.take(self.args@.len() as int) =~= raw);
        }
        RunRequestDataWire { binary: self.binary, args, cwd }
    }

    /// The request that was sent, or [`Error::InvalidBase64`] for the first byte string,
    /// the directory first, that does not decode.
    pub fn from_wire(wire: &RunRequestDataWire) -> (res: Result<RunRequestData, Error>)
        ensures
            match res {
                Ok(r) => r.binary == wire.binary && base64_decoded(wire.cwd@) == Some(r.cwd@)
                    && decode_all(wire.args@.map_values(|s: String| s@)) == Some(
                    r.args@.map_values(|b: Vec<u8>| b@),
                ),
                Err(e) => (base64_decoded(wire.cwd@) is None && e@ == ErrorView::InvalidBase64(
                    base64_error_text(wire.cwd@),
                )) || (base64_decoded(wire.cwd@) is Some && exists|k: int|
                    0 <= k < wire.args@.len() && decode_all(
                        wire.args@.map_values(|s: String| s@).take(k),
                    ) is Some && base64_decoded(#[trigger] wire.args@[k]@) is None && e@
                        == ErrorView::InvalidBase64(base64_error_text(wire.args@[k]@))),
            },
            (exists|i: int| 0 <= i < wire.cwd@.len() && !is_base64_symbol(#[trigger] wire.cwd@[i]))
                ==> res is Err,
            (exists|j: int, i: int|
                0 <= j < wire.args@.len() && 0 <= i < wire.args@[j]@.len() && !is_base64_symbol(
                    #[trigger] wire.args@[j]@[i],
                )) ==> res is Err,
    {
        let cwd = decode_bytes(&wire.cwd)?;
        let mut args: Vec<Vec<u8>> = Vec::new();
        let mut i: usize = 0;
        let ghost texts = wire.args@.map_values(|s: String| s@);
        proof {
            assert(texts.take(0) =~= Seq::<Seq<char>>::empty());
            assert(args@.map_values(|b: Vec<u8>| b@) =~= Seq::<Seq<u8>>::empty());
        }
        while i < wire.args.len()
            invariant
                i <= wire.args@.len(),
                texts == wire.args@.map_values(|s: String| s@),
                base64_decoded(wire.cwd@) == Some(cwd@),
                decode_all(texts.take(i as int)) == Some(args@.map_values(|b: Vec<u8>| b@)),
                forall|j: int, k: int|
                    0 <= j < i && 0 <= k < wire.args@[j]@.len() ==> is_base64_symbol(
                        #[trigger] wire.args@[j]@[k],
                    ),
            decreases wire.args@.len() - i,
        {
            proof {
                assert(texts.take(i + 1).drop_last() =~= texts.take(i as int));
                assert(texts.take(i + 1).last() == wire.args@[i as int]@);
            }
            match decode_bytes(&wire.args[i]) {
                Ok(v) => {
                    let ghost before = args@.map_values(|b: Vec<u8>| b@);
                    args.push(v);
                    proof {
                        assert(args@.map_values(|b: Vec<u8>| b@) =~= before.push(v@));
                    }
                },
                Err(e) => {
                    proof {
                        lemma_decode_all_prefix(texts, i as int + 1);
                        assert(wire.args@[i as int]@ == texts[i as int]);
                        assert(decode_all(wire.args@.map_values(|s: String| s@).take(i as int))
                            is Some);
                        assert(base64_decoded(wire.args@[i as int]@) is None);
                    }
                    return Err(e);
                },
            }
            i = i + 1;
        }
        proof {
            assert(texts.take(wire.args@.len() as int) =~= texts);
        }
        Ok(RunRequestData { binary: wire.binary, args, cwd })
    }
}

/// Where a prefix of the list does not decode, the list does not decode.
proof fn lemma_decode_all_prefix(v: Seq<Seq<char>>, k: int)
    requires
        0 <= k <= v.len(),
        decode_all(v.take(k)) is None,
    ensures
        decode_all(v) is None,
    decreases v.len() - k,
{
    if k < v.len() {
        assert(v.take(k + 1).drop_last() =~= v.take(k));
        lemma_decode_all_prefix(v, k + 1);
    } else {
        assert(v.take(k) =~= v);
    }
}

impl RunResponseData {
    /// The response as sent. Decoding what is sent gives the response back.
    pub fn to_wire(self) -> (res: RunResponseDataWire)
        requires
            encodable_len(self.stdout@.len()),
            encodable_len(self.stderr@.len()),
        ensures
            res.stdout@ == base64_encoded(self.stdout@),
            res.stderr@ == base64_encoded(self.stderr@),
            res.status == self.status,
            base64_decoded(res.stdout@) == Some(self.stdout@),
            base64_decoded(res.stderr@) == Some(self.stderr@),
    {
        RunResponseDataWire {
            stdout: base64_encode(self.stdout.as_slice()),
            stderr: base64_encode(self.stderr.as_slice()),
            status: self.status,
        }
    }

    /// The response that was sent, or [`Error::InvalidBase64`] for the first byte string,
    /// the output first, that does not decode.
    pub fn from_wire(wire: RunResponseDataWire) -> (res: Result<RunResponseData, Error>)
        ensures
            match res {
                Ok(r) => base64_decoded(wire.stdout@) == Some(r.stdout@) && base64_decoded(
                    wire.stderr@,
                ) == Some(r.stderr@) && r.status == wire.status,
                Err(e) => (base64_decoded(wire.stdout@) is None && e@ == ErrorView::InvalidBase64(
                    base64_error_text(wire.stdout@),
                )) || (base64_decoded(wire.stdout@) is Some && base64_decoded(wire.stderr@) is None
                    && e@ == ErrorView::InvalidBase64(base64_error_text(wire.stderr@))),
            },
            (exists|i: int|
                0 <= i < wire.stdout@.len() && !is_base64_symbol(#[trigger] wire.stdout@[i]))
                ==> res is Err,
            (exists|i: int|
                0 <= i < wire.stderr@.len() && !is_base64_symbol(#[trigger] wire.stderr@[i]))
                ==> res is Err,
    {
        let stdout = decode_bytes(&wire.stdout)?;
        let stderr = decode_bytes(&wire.stderr)?;
        Ok(RunResponseData { stdout, stderr, status: wire.status })
    }
}

} // verus!
