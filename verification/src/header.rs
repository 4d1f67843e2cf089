use vstd::prelude::*;

use crate::cursor::ByteCursor;
use crate::cursor::spec_u16_le;
use crate::error::DecodePolicy;
use crate::error::TapeError;

verus! {

/// Discriminator byte of a block body: `0x00` marks a Header block,
/// `0xFF` a Data block. The format reserves exactly these two values.
#[derive(Clone, Copy, Debug, PartialEq, Eq, Structural)]
pub enum FlagEnum {
    Header,
    Data,
}

impl FlagEnum {
    pub open spec fn spec_from_u8(value: u8) -> Option<FlagEnum> {
        if value == 0x00 {
            Some(FlagEnum::Header)
        } else if value == 0xFF {
            Some(FlagEnum::Data)
        } else {
            None
        }
    }

    /// Maps a flag byte to its variant; any byte other than the two
    /// reserved values is invalid.
    pub fn from_u8(value: u8) -> (r: Option<Self>)
        ensures
            r == Self::spec_from_u8(value),
    {
        match value {
            0x00 => Some(FlagEnum::Header),
            0xFF => Some(FlagEnum::Data),
            _ => None,
        }
    }
}

/// Kind tag of a header record: what the companion payload holds.
#[derive(Clone, Copy, Debug, PartialEq, Eq, Structural)]
pub enum HeaderTypeEnum {
    Program,
    NumArray,
    CharArray,
    Bytes,
}

impl HeaderTypeEnum {
    pub open spec fn spec_from_u8(value: u8) -> Option<HeaderTypeEnum> {
        if value == 0x00 {
            Some(HeaderTypeEnum::Program)
        } else if value == 0x01 {
            Some(HeaderTypeEnum::NumArray)
        } else if value == 0x02 {
            Some(HeaderTypeEnum::CharArray)
        } else if value == 0x03 {
            Some(HeaderTypeEnum::Bytes)
        } else {
            None
        }
    }

    /// Maps a kind byte to its variant; any other byte invalidates the block.
    pub fn from_u8(value: u8) -> (r: Option<Self>)
        ensures
            r == Self::spec_from_u8(value),
    {
        match value {
            0x00 => Some(HeaderTypeEnum::Program),
            0x01 => Some(HeaderTypeEnum::NumArray),
            0x02 => Some(HeaderTypeEnum::CharArray),
            0x03 => Some(HeaderTypeEnum::Bytes),
            _ => None,
        }
    }

    /// The byte that stands for this kind on the wire.
    pub open spec fn spec_to_u8(self) -> u8 {
        match self {
            HeaderTypeEnum::Program => 0x00,
            HeaderTypeEnum::NumArray => 0x01,
            HeaderTypeEnum::CharArray => 0x02,
            HeaderTypeEnum::Bytes => 0x03,
        }
    }

    pub fn to_u8(self) -> (r: u8)
        ensures
            r == self.spec_to_u8(),
    {
        match self {
            HeaderTypeEnum::Program => 0x00,
            HeaderTypeEnum::NumArray => 0x01,
            HeaderTypeEnum::CharArray => 0x02,
            HeaderTypeEnum::Bytes => 0x03,
        }
    }
}

/// Parameter fields of a Program header: both stored little-endian.
#[derive(Clone, Copy, Debug, PartialEq, Eq)]
pub struct ProgramParams {
    pub autostart_line: u16,
    pub len_program: u16,
}

/// Parameter fields of a Bytes header; the trailing reserved pair
/// carries no validated invariant in this format.
#[derive(Clone, Copy, Debug, PartialEq, Eq)]
pub struct BytesParams {
    pub start_address: u16,
    pub reserved: (u8, u8),
}

/// Parameter fields of a numeric or character array header. The trailing
/// reserved pair is conventionally `(0x00, 0x80)` in a well-formed array
/// header; a mismatch is a soft anomaly (see `DecodePolicy`).
#[derive(Clone, Copy, Debug, PartialEq, Eq)]
pub struct ArrayParams {
    pub reserved: u8,
    pub var_name: u8,
    pub reserved1: (u8, u8),
}

/// The kind-specific parameter fields of a header, exactly four bytes on
/// the wire in every variant.
#[derive(Clone, Copy, Debug, PartialEq, Eq)]
pub enum BlockParams {
    Program(ProgramParams),
    Array(ArrayParams),
    Bytes(BytesParams),
}

pub open spec fn spec_program_params(b0: u8, b1: u8, b2: u8, b3: u8) -> ProgramParams {
    ProgramParams { autostart_line: spec_u16_le(b0, b1), len_program: spec_u16_le(b2, b3) }
}

pub open spec fn spec_bytes_params(b0: u8, b1: u8, b2: u8, b3: u8) -> BytesParams {
    BytesParams { start_address: spec_u16_le(b0, b1), reserved: (b2, b3) }
}

pub open spec fn spec_array_params(b0: u8, b1: u8, b2: u8, b3: u8, policy: DecodePolicy) -> Result<
    ArrayParams,
    TapeError,
> {
    if policy == DecodePolicy::Strict && !(b2 == 0x00 && b3 == 0x80) {
        Err(TapeError::MalformedArrayHeader)
    } else {
        Ok(ArrayParams { reserved: b0, var_name: b1, reserved1: (b2, b3) })
    }
}

/// What the four parameter bytes of a header mean under each kind.
pub open spec fn spec_decode_params(
    kind: HeaderTypeEnum,
    b0: u8,
    b1: u8,
    b2: u8,
    b3: u8,
    policy: DecodePolicy,
) -> Result<BlockParams, TapeError> {
    match kind {
        HeaderTypeEnum::Program => Ok(BlockParams::Program(spec_program_params(b0, b1, b2, b3))),
        HeaderTypeEnum::NumArray | HeaderTypeEnum::CharArray => match spec_array_params(
            b0,
            b1,
            b2,
            b3,
            policy,
        ) {
            Ok(a) => Ok(BlockParams::Array(a)),
            Err(e) => Err(e),
        },
        HeaderTypeEnum::Bytes => Ok(BlockParams::Bytes(spec_bytes_params(b0, b1, b2, b3))),
    }
}

impl ProgramParams {
    /// Reads the two little-endian Program fields, four bytes in all.
    pub fn new(cursor: &mut ByteCursor) -> (r: Result<ProgramParams, TapeError>)
        requires
            old(cursor).wf(),
        ensures
            final(cursor).wf(),
            final(cursor).data_seq() == old(cursor).data_seq(),
            old(cursor).position() <= final(cursor).position(),
            old(cursor).remaining() >= 4 ==> {
                &&& r == Ok::<ProgramParams, TapeError>(spec_program_params(
                    old(cursor).window()[0],
                    old(cursor).window()[1],
                    old(cursor).window()[2],
                    old(cursor).window()[3],
                ))
                &&& final(cursor).position() == old(cursor).position() + 4
            },
            old(cursor).remaining() < 4 ==> r == Err::<ProgramParams, TapeError>(
                TapeError::UnexpectedEndOfInput,
            ),
    {
        let ghost c0 = *cursor;
        proof {
            if c0.remaining() >= 4 {
                assert(c0.window()[0] == c0.data_seq()[c0.position()]);
                assert(c0.window()[1] == c0.data_seq()[c0.position() + 1]);
                assert(c0.window()[2] == c0.data_seq()[c0.position() + 2]);
                assert(c0.window()[3] == c0.data_seq()[c0.position() + 3]);
            }
        }
        let autostart_line = cursor.read_u16_le()?;
        let len_program = cursor.read_u16_le()?;
        Ok(ProgramParams { autostart_line, len_program })
    }
}

impl BytesParams {
    /// Reads the little-endian start address, then the two reserved bytes.
    pub fn new(cursor: &mut ByteCursor) -> (r: Result<BytesParams, TapeError>)
        requires
            old(cursor).wf(),
        ensures
            final(cursor).wf(),
            final(cursor).data_seq() == old(cursor).data_seq(),
            old(cursor).position() <= final(cursor).position(),
            old(cursor).remaining() >= 4 ==> {
                &&& r == Ok::<BytesParams, TapeError>(spec_bytes_params(
                    old(cursor).window()[0],
                    old(cursor).window()[1],
                    old(cursor).window()[2],
                    old(cursor).window()[3],
                ))
                &&& final(cursor).position() == old(cursor).position() + 4
            },
            old(cursor).remaining() < 4 ==> r == Err::<BytesParams, TapeError>(
                TapeError::UnexpectedEndOfInput,
            ),
    {
        let ghost c0 = *cursor;
        proof {
            if c0.remaining() >= 4 {
                assert(c0.window()[0] == c0.data_seq()[c0.position()]);
                assert(c0.window()[1] == c0.data_seq()[c0.position() + 1]);
                assert(c0.window()[2] == c0.data_seq()[c0.position() + 2]);
                assert(c0.window()[3] == c0.data_seq()[c0.position() + 3]);
            }
        }
        let start_address = cursor.read_u16_le()?;
        let r0 = cursor.read_u8()?;
        let r1 = cursor.read_u8()?;
        Ok(BytesParams { start_address, reserved: (r0, r1) })
    }
}

impl ArrayParams {
    /// Reads the array parameter bytes. Under the strict policy a trailing
    /// reserved pair other than `(0x00, 0x80)` fails with
    /// `MalformedArrayHeader`; the lenient policy keeps the suspect fields.
    pub fn new(cursor: &mut ByteCursor, policy: DecodePolicy) -> (r: Result<
        ArrayParams,
        TapeError,
    >)
        requires
            old(cursor).wf(),
        ensures
            final(cursor).wf(),
            final(cursor).data_seq() == old(cursor).data_seq(),
            old(cursor).position() <= final(cursor).position(),
            old(cursor).remaining() >= 4 ==> {
                &&& r == spec_array_params(
                    old(cursor).window()[0],
                    old(cursor).window()[1],
                    old(cursor).window()[2],
                    old(cursor).window()[3],
                    policy,
                )
                &&& final(cursor).position() == old(cursor).position() + 4
            },
            old(cursor).remaining() < 4 ==> r == Err::<ArrayParams, TapeError>(
                TapeError::UnexpectedEndOfInput,
            ),
    {
        let ghost c0 = *cursor;
        proof {
            if c0.remaining() >= 4 {
                assert(c0.window()[0] == c0.data_seq()[c0.position()]);
                assert(c0.window()[1] == c0.data_seq()[c0.position() + 1]);
                assert(c0.window()[2] == c0.data_seq()[c0.position() + 2]);
                assert(c0.window()[3] == c0.data_seq()[c0.position() + 3]);
            }
        }
        let reserved = cursor.read_u8()?;
        let var_name = cursor.read_u8()?;
        let r0 = cursor.read_u8()?;
        let r1 = cursor.read_u8()?;
        if policy == DecodePolicy::Strict && !(r0 == 0x00 && r1 == 0x80) {
            return Err(TapeError::MalformedArrayHeader);
        }
        Ok(ArrayParams { reserved, var_name, reserved1: (r0, r1) })
    }
}

/// The low byte of a 16-bit value stored little-endian.
pub open spec fn spec_u16_lo(v: u16) -> u8 {
    (v % 256) as u8
}

/// The high byte of a 16-bit value stored little-endian.
pub open spec fn spec_u16_hi(v: u16) -> u8 {
    (v / 256) as u8
}

/// Splitting a little-endian 16-bit value gives back the two bytes it
/// was assembled from.
pub proof fn lemma_u16_le_parts(lo: u8, hi: u8)
    ensures
        spec_u16_lo(spec_u16_le(lo, hi)) == lo,
        spec_u16_hi(spec_u16_le(lo, hi)) == hi,
{
    assert(spec_u16_le(lo, hi) == lo + 256 * hi);
    assert((lo + 256 * hi) % 256 == lo as int % 256) by (nonlinear_arith)
        requires
            0 <= lo < 256,
            0 <= hi < 256,
    ;
    assert((lo + 256 * hi) / 256 == hi) by (nonlinear_arith)
        requires
            0 <= lo < 256,
            0 <= hi < 256,
    ;
}

/// Mathematical model of a decoded header: the filename as a plain byte
/// sequence, everything else as the exec fields themselves.
#[verifier::ext_equal]
pub ghost struct HeaderV {
    pub header_type: HeaderTypeEnum,
    pub filename: Seq<u8>,
    pub len_data: u16,
    pub params: BlockParams,
    pub checksum: u8,
}

/// Structured metadata preceding a data payload: kind tag, a fixed-width
/// space- or zero-padded 10-byte filename, the declared length of the
/// companion data, four bytes of kind-specific parameters, and a checksum
/// byte that is carried verbatim but never validated here, by design.
#[derive(Debug, PartialEq, Eq)]
pub struct Header {
    pub header_type: HeaderTypeEnum,
    pub filename: Vec<u8>,
    pub len_data: u16,
    pub params: BlockParams,
    pub checksum: u8,
}

impl View for Header {
    type V = HeaderV;

    open spec fn view(&self) -> HeaderV {
        HeaderV {
            header_type: self.header_type,
            filename: self.filename@,
            len_data: self.len_data,
            params: self.params,
            checksum: self.checksum,
        }
    }
}

/// What the first 18 bytes of `s` decode to, step by step in wire order:
/// kind, 10 filename bytes, little-endian data length, four parameter
/// bytes, checksum. A short read at any step is `UnexpectedEndOfInput`;
/// an unmapped kind byte is `InvalidHeaderKind`; the array parameter
/// check follows `policy`.
pub open spec fn spec_decode_header(s: Seq<u8>, policy: DecodePolicy) -> Result<
    HeaderV,
    TapeError,
> {
    if s.len() < 1 {
        Err(TapeError::UnexpectedEndOfInput)
    } else {
        match HeaderTypeEnum::spec_from_u8(s[0]) {
            None => Err(TapeError::InvalidHeaderKind),
            Some(kind) => {
                if s.len() < 17 {
                    Err(TapeError::UnexpectedEndOfInput)
                } else {
                    match spec_decode_params(kind, s[13], s[14], s[15], s[16], policy) {
                        Err(e) => Err(e),
                        Ok(params) => {
                            if s.len() < 18 {
                                Err(TapeError::UnexpectedEndOfInput)
                            } else {
                                Ok(
                                    HeaderV {
                                        header_type: kind,
                                        filename: s.subrange(1, 11),
                                        len_data: spec_u16_le(s[11], s[12]),
                                        params,
                                        checksum: s[17],
                                    },
                                )
                            }
                        },
                    }
                }
            },
        }
    }
}

impl Header {
    /// The filename field always holds exactly ten bytes.
    pub open spec fn wf(&self) -> bool {
        self.filename@.len() == 10
    }

    /// Decodes the fixed 18-byte header payload (17 field bytes plus the
    /// checksum) from the cursor, consuming exactly 18 bytes on success.
    pub fn from_bytes(cursor: &mut ByteCursor, policy: DecodePolicy) -> (r: Result<
        Header,
        TapeError,
    >)
        requires
            old(cursor).wf(),
        ensures
            final(cursor).wf(),
            final(cursor).data_seq() == old(cursor).data_seq(),
            old(cursor).position() <= final(cursor).position(),
            match r {
                Ok(h) => {
                    &&& h.wf()
                    &&& spec_decode_header(old(cursor).window(), policy) == Ok::<
                        HeaderV,
                        TapeError,
                    >(h@)
                    &&& final(cursor).position() == old(cursor).position() + 18
                },
                Err(e) => spec_decode_header(old(cursor).window(), policy) == Err::<
                    HeaderV,
                    TapeError,
                >(e),
            },
    {
        let ghost c0 = *cursor;
        let ghost s = c0.window();
        proof {
            assert forall|i: int| 0 <= i < s.len() implies s[i] == c0.data_seq()[c0.position()
                + i] by {}
        }
        let kind_byte = cursor.read_u8()?;
        let kind = match HeaderTypeEnum::from_u8(kind_byte) {
            Some(k) => k,
            None => {
                return Err(TapeError::InvalidHeaderKind);
            },
        };
        let filename = cursor.read_exact(10)?;
        proof {
            if c0.remaining() >= 11 {
                assert(filename@ =~= s.subrange(1, 11));
            }
        }
        let len_data = cursor.read_u16_le()?;
        let params = match kind {
            HeaderTypeEnum::Program => BlockParams::Program(ProgramParams::new(cursor)?),
            HeaderTypeEnum::NumArray | HeaderTypeEnum::CharArray => BlockParams::Array(
                ArrayParams::new(cursor, policy)?,
            ),
            HeaderTypeEnum::Bytes => BlockParams::Bytes(BytesParams::new(cursor)?),
        };
        let checksum = cursor.read_u8()?;
        let h = Header { header_type: kind, filename, len_data, params, checksum };
        proof {
            assert(spec_decode_header(s, policy) == Ok::<HeaderV, TapeError>(h@));
        }
        Ok(h)
    }

    /// Re-encodes the header as the exact 18 bytes it was decoded from:
    /// kind, filename, little-endian data length, parameters, checksum.
    pub fn to_bytes(&self) -> (r: Vec<u8>)
        requires
            self.wf(),
        ensures
            r@ == spec_encode_header(self@),
            r@.len() == 18,
    {
        let mut out: Vec<u8> = Vec::new();
        out.push(self.header_type.to_u8());
        let mut i: usize = 0;
        while i < self.filename.len()
            invariant
                self.wf(),
                i <= 10,
                out@.len() == 1 + i,
                out@[0] == self.header_type.spec_to_u8(),
                out@.subrange(1, 1 + i) == self.filename@.subrange(0, i as int),
            decreases self.filename.len() - i,
        {
            out.push(self.filename[i]);
            i = i + 1;
            proof {
                assert(out@.subrange(1, 1 + i) =~= self.filename@.subrange(0, i as int));
            }
        }
        out.push((self.len_data % 256) as u8);
        out.push((self.len_data / 256) as u8);
        match &self.params {
            BlockParams::Program(p) => {
                out.push((p.autostart_line % 256) as u8);
                out.push((p.autostart_line / 256) as u8);
                out.push((p.len_program % 256) as u8);
                out.push((p.len_program / 256) as u8);
            },
            BlockParams::Array(a) => {
                out.push(a.reserved);
                out.push(a.var_name);
                out.push(a.reserved1.0);
                out.push(a.reserved1.1);
            },
            BlockParams::Bytes(b) => {
                out.push((b.start_address % 256) as u8);
                out.push((b.start_address / 256) as u8);
                out.push(b.reserved.0);
                out.push(b.reserved.1);
            },
        }
        out.push(self.checksum);
        proof {
            assert(self.filename@.subrange(0, 10) =~= self.filename@);
            assert(out@ =~= spec_encode_header(self@));
        }
        out
    }
}

/// The four wire bytes of a header's kind-specific parameter fields.
pub open spec fn spec_params_bytes(p: BlockParams) -> Seq<u8> {
    match p {
        BlockParams::Program(pp) => seq![
            spec_u16_lo(pp.autostart_line),
            spec_u16_hi(pp.autostart_line),
            spec_u16_lo(pp.len_program),
            spec_u16_hi(pp.len_program),
        ],
        BlockParams::Array(ap) => seq![ap.reserved, ap.var_name, ap.reserved1.0, ap.reserved1.1],
        BlockParams::Bytes(bp) => seq![
            spec_u16_lo(bp.start_address),
            spec_u16_hi(bp.start_address),
            bp.reserved.0,
            bp.reserved.1,
        ],
    }
}

/// The 18 wire bytes of a header: kind, the 10 filename bytes, the
/// little-endian data length, the 4 parameter bytes, the checksum.
pub open spec fn spec_encode_header(h: HeaderV) -> Seq<u8> {
    seq![h.header_type.spec_to_u8()] + h.filename + seq![
        spec_u16_lo(h.len_data),
        spec_u16_hi(h.len_data),
    ] + spec_params_bytes(h.params) + seq![h.checksum]
}

/// Round trip: any 18 bytes that decode to a header are reproduced
/// byte-exactly by re-encoding that header's fields, under either policy.
pub proof fn lemma_header_round_trip(s: Seq<u8>, policy: DecodePolicy, h: HeaderV)
    requires
        s.len() == 18,
        spec_decode_header(s, policy) == Ok::<HeaderV, TapeError>(h),
    ensures
        spec_encode_header(h) == s,
{
    let kind = HeaderTypeEnum::spec_from_u8(s[0]);
    assert(kind is Some);
    assert(h.header_type.spec_to_u8() == s[0]);
    lemma_u16_le_parts(s[11], s[12]);
    lemma_u16_le_parts(s[13], s[14]);
    lemma_u16_le_parts(s[15], s[16]);
    assert(spec_params_bytes(h.params) =~= s.subrange(13, 17));
    assert(spec_encode_header(h) =~= s);
}

} // verus!
