use vstd::prelude::*;

use crate::cursor::ByteCursor;
use crate::cursor::spec_u16_le;
use crate::error::DecodePolicy;
use crate::error::TapeError;
use crate::header::FlagEnum;
use crate::header::Header;
use crate::header::HeaderV;
use crate::header::spec_decode_header;

verus! {

/// Mathematical model of one parsed block: declared length, flag, the
/// decoded header of a Header block, and the raw payload bytes.
#[verifier::ext_equal]
pub ghost struct BlockV {
    pub len_block: u16,
    pub flag: FlagEnum,
    pub header: Option<HeaderV>,
    pub payload: Option<Seq<u8>>,
}

/// What one `next` step over the container yields at spec level: normal
/// termination at a block boundary, a typed failure, or a block together
/// with how many bytes it consumed (length prefix included).
pub ghost enum BlockOutcome {
    End,
    Fail(TapeError),
    Next(BlockV, int),
}

/// One length-prefixed record of the tape container.
///
/// A Header block of declared length 19 carries a parsed `Header` and a
/// companion payload of `header.len_data` bytes; a Data block carries a
/// raw payload of `len_block - 1` bytes (the flag byte itself is counted
/// in `len_block`); any other flag/length combination is kept as an
/// explicit unsupported block with neither header nor payload.
#[derive(Debug, PartialEq, Eq)]
pub struct Block {
    pub len_block: u16,
    pub flag: FlagEnum,
    pub header: Option<Header>,
    pub payload: Option<Vec<u8>>,
}

impl View for Block {
    type V = BlockV;

    open spec fn view(&self) -> BlockV {
        BlockV {
            len_block: self.len_block,
            flag: self.flag,
            header: match self.header {
                Some(h) => Some(h@),
                None => None,
            },
            payload: match self.payload {
                Some(p) => Some(p@),
                None => None,
            },
        }
    }
}

impl Block {
    /// A held header always carries its ten filename bytes.
    pub open spec fn wf(&self) -> bool {
        match self.header {
            Some(h) => h.wf(),
            None => true,
        }
    }
}

/// How one block is parsed from the unread bytes `s`, mirroring the wire
/// walk step by step: an empty `s` is normal termination; then the
/// little-endian declared length; then the flag byte, which must be one
/// of the two reserved values and must fit inside the declared length;
/// then the branch that the length/flag combination selects. Every
/// successful outcome consumes exactly `2 + declared_length` bytes, plus
/// the companion payload of a Header block, so the walk stays aligned at
/// the next length prefix even for unsupported blocks.
pub open spec fn spec_parse_block(s: Seq<u8>, policy: DecodePolicy) -> BlockOutcome {
    if s.len() == 0 {
        BlockOutcome::End
    } else if s.len() < 2 {
        BlockOutcome::Fail(TapeError::UnexpectedEndOfInput)
    } else {
        let l = spec_u16_le(s[0], s[1]) as int;
        if l == 0 {
            BlockOutcome::Fail(TapeError::InvalidFlag)
        } else if s.len() < 3 {
            BlockOutcome::Fail(TapeError::UnexpectedEndOfInput)
        } else {
            match FlagEnum::spec_from_u8(s[2]) {
                None => BlockOutcome::Fail(TapeError::InvalidFlag),
                Some(FlagEnum::Header) => {
                    if l == 19 {
                        match spec_decode_header(s.subrange(3, s.len() as int), policy) {
                            Err(e) => BlockOutcome::Fail(e),
                            Ok(h) => {
                                let n = 21 + h.len_data;
                                if s.len() < n {
                                    BlockOutcome::Fail(TapeError::UnexpectedEndOfInput)
                                } else {
                                    BlockOutcome::Next(
                                        BlockV {
                                            len_block: 19,
                                            flag: FlagEnum::Header,
                                            header: Some(h),
                                            payload: Some(s.subrange(21, n)),
                                        },
                                        n,
                                    )
                                }
                            },
                        }
                    } else {
                        if s.len() < 2 + l {
                            BlockOutcome::Fail(TapeError::UnexpectedEndOfInput)
                        } else {
                            BlockOutcome::Next(
                                BlockV {
                                    len_block: spec_u16_le(s[0], s[1]),
                                    flag: FlagEnum::Header,
                                    header: None,
                                    payload: None,
                                },
                                2 + l,
                            )
                        }
                    }
                },
                Some(FlagEnum::Data) => {
                    if s.len() < 2 + l {
                        BlockOutcome::Fail(TapeError::UnexpectedEndOfInput)
                    } else {
                        BlockOutcome::Next(
                            BlockV {
                                len_block: spec_u16_le(s[0], s[1]),
                                flag: FlagEnum::Data,
                                header: None,
                                payload: Some(s.subrange(3, 2 + l)),
                            },
                            2 + l,
                        )
                    }
                },
            }
        }
    }
}

/// A successful parse consumes at least the two length bytes and never
/// more than the bytes that were there.
pub proof fn lemma_parse_block_bounds(s: Seq<u8>, policy: DecodePolicy)
    ensures
        match spec_parse_block(s, policy) {
            BlockOutcome::Next(bv, n) => 2 <= n <= s.len(),
            _ => true,
        },
{
}

/// A Data block's payload holds exactly `declared_length - 1` bytes, and
/// parsing it consumes exactly `declared_length` body bytes after the
/// two-byte length prefix, whatever the payload holds.
pub proof fn lemma_data_block_shape(s: Seq<u8>, policy: DecodePolicy, bv: BlockV, n: int)
    requires
        spec_parse_block(s, policy) == BlockOutcome::Next(bv, n),
        bv.flag == FlagEnum::Data,
    ensures
        bv.payload matches Some(p) && p.len() == bv.len_block - 1,
        bv.header is None,
        n == 2 + bv.len_block,
{
}

/// A Header block of declared length 19 carries a decoded header and a
/// companion payload of exactly `header.len_data` bytes; an unsupported
/// Header-flagged block of any other length carries neither, and its
/// whole declared body is still consumed.
pub proof fn lemma_header_block_shape(s: Seq<u8>, policy: DecodePolicy, bv: BlockV, n: int)
    requires
        spec_parse_block(s, policy) == BlockOutcome::Next(bv, n),
        bv.flag == FlagEnum::Header,
    ensures
        bv.len_block == 19 ==> (bv.header matches Some(h) && (bv.payload matches Some(p)
            && p.len() == h.len_data) && n == 21 + h.len_data),
        bv.len_block != 19 ==> bv.header is None && bv.payload is None && n == 2 + bv.len_block,
{
}

impl Block {
    /// Parses one block from the cursor. The caller has already ruled
    /// out the end of the container, so a short read here is a fatal
    /// `UnexpectedEndOfInput`, not termination.
    pub fn from_bytes(cursor: &mut ByteCursor, policy: DecodePolicy) -> (r: Result<
        Block,
        TapeError,
    >)
        requires
            old(cursor).wf(),
            old(cursor).remaining() > 0,
        ensures
            final(cursor).wf(),
            final(cursor).data_seq() == old(cursor).data_seq(),
            old(cursor).position() <= final(cursor).position(),
            match spec_parse_block(old(cursor).window(), policy) {
                BlockOutcome::End => false,
                BlockOutcome::Next(bv, n) => {
                    &&& r matches Ok(b) && b@ == bv && b.wf()
                    &&& final(cursor).position() == old(cursor).position() + n
                },
                BlockOutcome::Fail(e) => r == Err::<Block, TapeError>(e),
            },
    {
        let ghost c0 = *cursor;
        let ghost s = c0.window();
        proof {
            assert forall|i: int| 0 <= i < s.len() implies s[i] == c0.data_seq()[c0.position()
                + i] by {}
        }
        let len_block = cursor.read_u16_le()?;
        if len_block == 0 {
            return Err(TapeError::InvalidFlag);
        }
        let flag_byte = cursor.read_u8()?;
        let flag = match FlagEnum::from_u8(flag_byte) {
            Some(f) => f,
            None => {
                return Err(TapeError::InvalidFlag);
            },
        };
        if len_block == 19 && flag == FlagEnum::Header {
            proof {
                assert(cursor.window() =~= s.subrange(3, s.len() as int));
            }
            let header = Header::from_bytes(cursor, policy)?;
            let payload = cursor.read_exact(header.len_data as usize)?;
            proof {
                if s.len() >= 21 + header.len_data {
                    assert(payload@ =~= s.subrange(21, 21 + header.len_data));
                }
            }
            Ok(Block { len_block, flag, header: Some(header), payload: Some(payload) })
        } else if flag == FlagEnum::Data {
            let payload = cursor.read_exact((len_block - 1) as usize)?;
            proof {
                if s.len() >= 2 + len_block {
                    assert(payload@ =~= s.subrange(3, 2 + len_block));
                }
            }
            Ok(Block { len_block, flag, header: None, payload: Some(payload) })
        } else {
            cursor.skip((len_block - 1) as usize)?;
            Ok(Block { len_block, flag, header: None, payload: None })
        }
    }
}

/// Walks a container block by block. The parser keeps no state beyond
/// the cursor position and the decoding policy; each `next` call is
/// independent.
pub struct BlockParser {
    cursor: ByteCursor,
    policy: DecodePolicy,
}

impl BlockParser {
    /// The whole container being walked.
    pub closed spec fn data_seq(&self) -> Seq<u8> {
        self.cursor.data_seq()
    }

    /// The byte offset the walk has reached.
    pub closed spec fn position(&self) -> int {
        self.cursor.position()
    }

    pub closed spec fn spec_policy(&self) -> DecodePolicy {
        self.policy
    }

    pub open spec fn wf(&self) -> bool {
        0 <= self.position() && self.position() <= self.data_seq().len()
    }

    /// The unread tail of the container.
    pub open spec fn window(&self) -> Seq<u8> {
        self.data_seq().subrange(self.position(), self.data_seq().len() as int)
    }

    pub fn new(data: Vec<u8>, policy: DecodePolicy) -> (p: BlockParser)
        ensures
            p.wf(),
            p.data_seq() == data@,
            p.position() == 0,
            p.spec_policy() == policy,
    {
        BlockParser { cursor: ByteCursor::new(data), policy }
    }

    /// The byte offset reached so far; callers use it to report where in
    /// the container a decode failed.
    pub fn offset(&self) -> (n: usize)
        ensures
            n as int == self.position(),
    {
        self.cursor.offset()
    }

    /// Yields the next block, `None` at normal termination (the cursor
    /// stood exactly at a block boundary with nothing left), or the
    /// typed error of a truncated or unrecognized block.
    pub fn next(&mut self) -> (r: Result<Option<Block>, TapeError>)
        requires
            old(self).wf(),
        ensures
            final(self).wf(),
            final(self).data_seq() == old(self).data_seq(),
            final(self).spec_policy() == old(self).spec_policy(),
            old(self).position() <= final(self).position(),
            match spec_parse_block(old(self).window(), old(self).spec_policy()) {
                BlockOutcome::End => {
                    &&& r == Ok::<Option<Block>, TapeError>(None)
                    &&& final(self).position() == old(self).position()
                },
                BlockOutcome::Next(bv, n) => {
                    &&& r matches Ok(ob) && ob matches Some(b) && b@ == bv && b.wf()
                    &&& final(self).position() == old(self).position() + n
                },
                BlockOutcome::Fail(e) => r == Err::<Option<Block>, TapeError>(e),
            },
    {
        if self.cursor.bytes_left() == 0 {
            return Ok(None);
        }
        match Block::from_bytes(&mut self.cursor, self.policy) {
            Ok(b) => Ok(Some(b)),
            Err(e) => Err(e),
        }
    }
}

/// The views of a sequence of parsed blocks.
pub open spec fn spec_views(blocks: Seq<Block>) -> Seq<BlockV> {
    blocks.map_values(|b: Block| b@)
}

/// What parsing the whole container from offset `pos` yields: the blocks
/// in container order, or the first typed error.
pub open spec fn spec_parse_all_from(s: Seq<u8>, pos: int, policy: DecodePolicy) -> Result<
    Seq<BlockV>,
    TapeError,
>
    decreases s.len() - pos when 0 <= pos <= s.len()
{
    match spec_parse_block(s.subrange(pos, s.len() as int), policy) {
        BlockOutcome::End => Ok(Seq::empty()),
        BlockOutcome::Fail(e) => Err(e),
        BlockOutcome::Next(bv, n) => {
            if 1 <= n && pos + n <= s.len() {
                match spec_parse_all_from(s, pos + n, policy) {
                    Ok(rest) => Ok(seq![bv] + rest),
                    Err(e) => Err(e),
                }
            } else {
                Err(TapeError::UnexpectedEndOfInput)
            }
        },
    }
}

/// What parsing the whole container yields.
pub open spec fn spec_parse_all(s: Seq<u8>, policy: DecodePolicy) -> Result<
    Seq<BlockV>,
    TapeError,
> {
    spec_parse_all_from(s, 0, policy)
}

/// Blocks already taken, prepended to whatever the rest of the walk yields.
pub open spec fn spec_prepend(acc: Seq<BlockV>, r: Result<Seq<BlockV>, TapeError>) -> Result<
    Seq<BlockV>,
    TapeError,
> {
    match r {
        Ok(rest) => Ok(acc + rest),
        Err(e) => Err(e),
    }
}

/// Parses a whole container into its ordered blocks, or fails with the
/// first typed error. An empty container yields no blocks at all.
pub fn parse_blocks(data: Vec<u8>, policy: DecodePolicy) -> (r: Result<Vec<Block>, TapeError>)
    ensures
        match r {
            Ok(blocks) => {
                &&& spec_parse_all(data@, policy) == Ok::<Seq<BlockV>, TapeError>(
                    spec_views(blocks@),
                )
                &&& forall|i: int| 0 <= i < blocks@.len() ==> blocks@[i].wf()
            },
            Err(e) => spec_parse_all(data@, policy) == Err::<Seq<BlockV>, TapeError>(e),
        },
        data@.len() == 0 ==> (r matches Ok(blocks) && blocks@.len() == 0),
{
    let mut parser = BlockParser::new(data, policy);
    let ghost d = parser.data_seq();
    let r = parser.parse_all();
    proof {
        if d.len() == 0 {
            assert(d.subrange(0, d.len() as int) =~= Seq::<u8>::empty());
            assert(spec_parse_all_from(d, 0, policy) == Ok::<Seq<BlockV>, TapeError>(
                Seq::empty(),
            ));
            if r is Ok {
                assert(spec_views(r->Ok_0@).len() == 0);
                assert(r->Ok_0@.len() == 0);
            }
        }
    }
    r
}

impl BlockParser {
    /// Walks the rest of the container into its ordered blocks, or fails
    /// with the first typed error.
    pub fn parse_all(&mut self) -> (r: Result<Vec<Block>, TapeError>)
        requires
            old(self).wf(),
        ensures
            final(self).wf(),
            final(self).data_seq() == old(self).data_seq(),
            final(self).spec_policy() == old(self).spec_policy(),
            match r {
                Ok(blocks) => {
                    &&& spec_parse_all_from(
                        old(self).data_seq(),
                        old(self).position(),
                        old(self).spec_policy(),
                    ) == Ok::<Seq<BlockV>, TapeError>(spec_views(blocks@))
                    &&& forall|i: int| 0 <= i < blocks@.len() ==> blocks@[i].wf()
                },
                Err(e) => spec_parse_all_from(
                    old(self).data_seq(),
                    old(self).position(),
                    old(self).spec_policy(),
                ) == Err::<Seq<BlockV>, TapeError>(e),
            },
    {
        let ghost s = old(self).data_seq();
        let ghost pol = old(self).spec_policy();
        let ghost start = old(self).position();
        let mut blocks: Vec<Block> = Vec::new();
        proof {
            assert(spec_views(blocks@) =~= Seq::<BlockV>::empty());
            match spec_parse_all_from(s, start, pol) {
                Ok(rest) => {
                    assert(Seq::<BlockV>::empty() + rest =~= rest);
                },
                Err(e) => {},
            }
        }
        loop
            invariant
                s == old(self).data_seq(),
                pol == old(self).spec_policy(),
                start == old(self).position(),
                self.wf(),
                self.data_seq() == s,
                self.spec_policy() == pol,
                start <= self.position(),
                spec_parse_all_from(s, start, pol) == spec_prepend(
                    spec_views(blocks@),
                    spec_parse_all_from(s, self.position(), pol),
                ),
                forall|i: int| 0 <= i < blocks@.len() ==> blocks@[i].wf(),
            decreases s.len() - self.position(),
        {
            let ghost pos0 = self.position();
            let ghost blocks0 = blocks@;
            let ghost w0 = self.window();
            proof {
                lemma_parse_block_bounds(w0, pol);
            }
            match self.next() {
                Ok(None) => {
                    proof {
                        match spec_parse_block(w0, pol) {
                            BlockOutcome::End => {},
                            BlockOutcome::Fail(e) => {
                                assert(false);
                            },
                            BlockOutcome::Next(bv, n) => {
                                assert(false);
                            },
                        }
                        assert(spec_parse_all_from(s, pos0, pol) == Ok::<
                            Seq<BlockV>,
                            TapeError,
                        >(Seq::empty()));
                        assert(spec_views(blocks@) + Seq::<BlockV>::empty() =~= spec_views(
                            blocks@,
                        ));
                    }
                    return Ok(blocks);
                },
                Ok(Some(b)) => {
                    blocks.push(b);
                    proof {
                        assert(spec_views(blocks@) =~= spec_views(blocks0) + seq![b@]);
                        let rest = spec_parse_all_from(s, self.position(), pol);
                        if rest is Ok {
                            assert((spec_views(blocks0) + (seq![b@] + rest->Ok_0)) =~= (
                            spec_views(blocks@) + rest->Ok_0));
                        }
                    }
                },
                Err(e) => {
                    proof {
                        match spec_parse_block(w0, pol) {
                            BlockOutcome::End => {
                                assert(false);
                            },
                            BlockOutcome::Fail(e2) => {},
                            BlockOutcome::Next(bv, n) => {
                                assert(false);
                            },
                        }
                    }
                    return Err(e);
                },
            }
        }
    }
}

} // verus!
