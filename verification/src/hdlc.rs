//! SHDLC framing for the particulate-sensor UART link.
//!
//! A frame is the payload with four special bytes escaped, a one-byte
//! checksum of the unescaped payload, and a frame-end marker on both
//! sides.

use vstd::prelude::*;

verus! {

/// Frame END: marks the beginning and the end of a packet.
pub const FEND: u8 = 0x7e;

/// Frame ESCape: marks the start of a swapped byte.
pub const FESC: u8 = 0x7d;

/// Substituted for an escaped `FEND`.
pub const TFEND: u8 = 0x5e;

/// Substituted for an escaped `FESC`.
pub const TFESC: u8 = 0x5d;

/// First original byte that must be escaped.
pub const OB1: u8 = 0x11;

/// Substituted for an escaped `OB1`.
pub const TFOB1: u8 = 0x31;

/// Second original byte that must be escaped.
pub const OB2: u8 = 0x13;

/// Substituted for an escaped `OB2`.
pub const TFOB2: u8 = 0x33;

/// Most payload bytes a frame may carry.
pub const MAX_FRAME_DATA: usize = 260;

/// Errors of SHDLC framing.
#[derive(Clone, Copy, Debug, PartialEq, Eq, Structural)]
pub enum HDLCError {
    /// Duplicate special characters.
    DuplicateSpecialChar,
    /// A stray frame-end byte inside the data.
    FendCharInData,
    /// An escape byte not followed by a substitute character.
    MissingTradeChar,
    /// The message does not begin with a frame-end byte.
    MissingFirstFend,
    /// The message does not end with a frame-end byte.
    MissingFinalFend,
    /// Too much data for one frame.
    TooMuchData,
    /// Too little data to be a frame.
    TooFewData,
    /// The decoded checksum does not match.
    InvalidChecksum,
    /// More data than a frame may carry came out of decoding.
    TooMuchDecodedData,
    /// The output buffer cannot hold the result.
    OutBufferTooSmall,
}

/// The running checksum: the wrapping byte sum of the data.
pub open spec fn byte_sum(data: Seq<u8>) -> u8
    decreases data.len(),
{
    if data.len() == 0 {
        0u8
    } else {
        ((byte_sum(data.drop_last()) + data.last()) % 256) as u8
    }
}

/// What one byte becomes on the wire.
pub open spec fn escape_byte(b: u8) -> Seq<u8> {
    if b == FESC {
        seq![FESC, TFESC]
    } else if b == FEND {
        seq![FESC, TFEND]
    } else if b == OB1 {
        seq![FESC, TFOB1]
    } else if b == OB2 {
        seq![FESC, TFOB2]
    } else {
        seq![b]
    }
}

/// The payload with every special byte escaped.
pub open spec fn escaped(data: Seq<u8>) -> Seq<u8>
    decreases data.len(),
{
    if data.len() == 0 {
        Seq::empty()
    } else {
        escaped(data.drop_last()) + escape_byte(data.last())
    }
}

/// The SHDLC checksum: the wrapping byte sum of the data, inverted.
pub fn calculate_checksum(data: &[u8]) -> (r: u8)
    ensures
        r == byte_sum(data@) ^ 0xffu8,
{
    let mut acc: u8 = 0;
    let mut i: usize = 0;
    while i < data.len()
        invariant
            i <= data@.len(),
            acc == byte_sum(data@.subrange(0, i as int)),
        decreases data@.len() - i,
    {
        proof {
            assert(data@.subrange(0, i + 1).drop_last() =~= data@.subrange(0, i as int));
        }
        acc = ((acc as u16 + data[i] as u16) % 256) as u8;
        i += 1;
    }
    proof {
        assert(data@.subrange(0, data@.len() as int) =~= data@);
    }
    acc ^ 0xff
}

/// Frame a payload: a frame-end byte, the escaped payload, the
/// checksum of the unescaped payload, a final frame-end byte.
pub fn encode(data: &[u8]) -> (r: Result<Vec<u8>, HDLCError>)
    ensures
        data@.len() > MAX_FRAME_DATA ==> (r matches Err(e) && e == HDLCError::TooMuchData),
        data@.len() <= MAX_FRAME_DATA ==> (r matches Ok(v) && v@ =~= seq![FEND] + escaped(data@)
            + seq![byte_sum(data@) ^ 0xffu8] + seq![FEND]),
{
    if data.len() > MAX_FRAME_DATA {
        return Err(HDLCError::TooMuchData);
    }
    let mut out: Vec<u8> = Vec::new();
    out.push(FEND);
    let mut i: usize = 0;
    while i < data.len()
        invariant
            i <= data@.len(),
            out@ =~= seq![FEND] + escaped(data@.subrange(0, i as int)),
        decreases data@.len() - i,
    {
        let b = data[i];
        if b == FESC {
            out.push(FESC);
            out.push(TFESC);
        } else if b == FEND {
            out.push(FESC);
            out.push(TFEND);
        } else if b == OB1 {
            out.push(FESC);
            out.push(TFOB1);
        } else if b == OB2 {
            out.push(FESC);
            out.push(TFOB2);
        } else {
            out.push(b);
        }
        proof {
            assert(data@.subrange(0, i + 1).drop_last() =~= data@.subrange(0, i as int));
            assert(out@ =~= seq![FEND] + escaped(data@.subrange(0, i + 1)));
        }
        i += 1;
    }
    proof {
        assert(data@.subrange(0, data@.len() as int) =~= data@);
    }
    out.push(calculate_checksum(data));
    out.push(FEND);
    Ok(out)
}

/// What unescaping the bytes between the frame-end markers yields:
/// the restored bytes, or the error of the first broken point — a
/// stray frame-end byte is `FendCharInData`, an escape byte without
/// its substitute is `MissingTradeChar`.
pub open spec fn unescaped(inner: Seq<u8>) -> Result<Seq<u8>, HDLCError>
    decreases inner.len(),
{
    if inner.len() == 0 {
        Ok(Seq::empty())
    } else if inner[0] == FESC {
        if inner.len() >= 2 && (inner[1] == TFEND || inner[1] == TFESC || inner[1] == TFOB1
            || inner[1] == TFOB2) {
            let original = if inner[1] == TFEND {
                FEND
            } else if inner[1] == TFESC {
                FESC
            } else if inner[1] == TFOB1 {
                OB1
            } else {
                OB2
            };
            match unescaped(inner.subrange(2, inner.len() as int)) {
                Ok(rest) => Ok(seq![original] + rest),
                Err(e) => Err(e),
            }
        } else {
            Err(HDLCError::MissingTradeChar)
        }
    } else if inner[0] == FEND {
        Err(HDLCError::FendCharInData)
    } else {
        match unescaped(inner.subrange(1, inner.len() as int)) {
            Ok(rest) => Ok(seq![inner[0]] + rest),
            Err(e) => Err(e),
        }
    }
}

/// Unframe a message: both frame-end markers are checked and the
/// bytes between them are unescaped (the trailing checksum byte is
/// part of the result, as the caller verifies it).
pub fn decode(input: &[u8]) -> (r: Result<Vec<u8>, HDLCError>)
    ensures
        input@.len() < 4 ==> (r matches Err(e) && e == HDLCError::TooFewData),
        input@.len() > 1000 ==> (r matches Err(e) && e == HDLCError::TooMuchData),
        4 <= input@.len() <= 1000 ==> {
            if input@[0] != FEND {
                r matches Err(e) && e == HDLCError::MissingFirstFend
            } else if input@[input@.len() - 1] != FEND {
                r matches Err(e) && e == HDLCError::MissingFinalFend
            } else {
                match unescaped(input@.subrange(1, input@.len() - 1)) {
                    Ok(d) => r matches Ok(v) && v@ == d,
                    Err(e0) => r matches Err(e) && e == e0,
                }
            }
        },
{
    if input.len() < 4 {
        return Err(HDLCError::TooFewData);
    }
    if input.len() > 1000 {
        return Err(HDLCError::TooMuchData);
    }
    if input[0] != FEND {
        return Err(HDLCError::MissingFirstFend);
    }
    if input[input.len() - 1] != FEND {
        return Err(HDLCError::MissingFinalFend);
    }
    let end = input.len() - 1;
    let ghost inner = input@.subrange(1, end as int);
    let mut out: Vec<u8> = Vec::new();
    let mut i: usize = 1;
    while i < end
        invariant
            1 <= i <= end,
            end == input@.len() - 1,
            4 <= input@.len() <= 1000,
            input@[0] == FEND,
            input@[input@.len() - 1] == FEND,
            inner == input@.subrange(1, end as int),
            ({
                match unescaped(input@.subrange(i as int, end as int)) {
                    Ok(rest) => unescaped(inner) matches Ok(all) && all == out@ + rest,
                    Err(e) => unescaped(inner) matches Err(e2) && e2 == e,
                }
            }),
        decreases end - i,
    {
        let b = input[i];
        let ghost before = input@.subrange(i as int, end as int);
        if b == FESC {
            if i + 1 >= end {
                proof {
                    assert(unescaped(before) == Err::<Seq<u8>, HDLCError>(
                        HDLCError::MissingTradeChar,
                    ));
                }
                return Err(HDLCError::MissingTradeChar);
            }
            let t = input[i + 1];
            let original: u8;
            if t == TFEND {
                original = FEND;
            } else if t == TFESC {
                original = FESC;
            } else if t == TFOB1 {
                original = OB1;
            } else if t == TFOB2 {
                original = OB2;
            } else {
                proof {
                    assert(unescaped(before) == Err::<Seq<u8>, HDLCError>(
                        HDLCError::MissingTradeChar,
                    ));
                }
                return Err(HDLCError::MissingTradeChar);
            }
            out.push(original);
            proof {
                assert(before.subrange(2, before.len() as int) =~= input@.subrange(
                    i + 2,
                    end as int,
                ));
            }
            i += 2;
        } else if b == FEND {
            proof {
                assert(unescaped(before) == Err::<Seq<u8>, HDLCError>(HDLCError::FendCharInData));
            }
            return Err(HDLCError::FendCharInData);
        } else {
            out.push(b);
            proof {
                assert(before.subrange(1, before.len() as int) =~= input@.subrange(
                    i + 1,
                    end as int,
                ));
            }
            i += 1;
        }
    }
    proof {
        assert(input@.subrange(end as int, end as int) =~= Seq::<u8>::empty());
        assert(unescaped(inner) matches Ok(all) && all == out@ + Seq::<u8>::empty());
        assert(out@ + Seq::<u8>::empty() =~= out@);
    }
    Ok(out)
}

} // verus!
