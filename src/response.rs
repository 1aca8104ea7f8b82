use vstd::prelude::*;

use crate::attr::{
    AttrReply, CreateReply, EntryReply, FileAttr, FileType, OpenReply, StatfsReply,
    Timespec,
};
use crate::errno::Failure;
use crate::wire::{
    int_within, nat_upto, parse_signed, parse_unsigned, span_token, spans_of, split_spaces,
    split_tokens, token_nat,
};

verus! {

/// Tokens of an `Ok` reply carrying attributes: the tag, two for the validity
/// period, and eighteen for the attributes.
pub const ATTR_TOKENS: usize = 21;

/// Tokens of an `Ok` reply carrying an entry: the attributes and a generation.
pub const ENTRY_TOKENS: usize = 22;

/// Tokens of an `Ok` reply to create: the entry, a file handle and open flags.
pub const CREATE_TOKENS: usize = 24;

/// Tokens of an `Ok` reply to open or opendir: a file handle and open flags.
pub const OPEN_TOKENS: usize = 3;

/// Tokens of an `Ok` reply to statfs: five block and file counts, three sizes.
pub const STATFS_TOKENS: usize = 9;

/// Tokens of an `Ok` reply to one chunk of a write: the length written.
pub const WRITTEN_TOKENS: usize = 2;

/// Tokens of one directory entry in a listing: the tag, inode, offset, kind and name.
pub const DIRENT_TOKENS: usize = 5;

/// Bytes before the payload of a read or readlink reply: `Ok` and a space.
pub const DATA_PREFIX: usize = 3;

/// `Ok`
pub open spec fn tag_ok() -> Seq<u8> {
    seq![79u8, 107u8]
}

/// `Err`
pub open spec fn tag_err() -> Seq<u8> {
    seq![69u8, 114u8, 114u8]
}

/// `Add`
pub open spec fn tag_add() -> Seq<u8> {
    seq![65u8, 100u8, 100u8]
}

// ---------------------------------------------------------------------------
// Fields
// ---------------------------------------------------------------------------

pub open spec fn u64_field(tok: Seq<u8>) -> Option<u64> {
    match nat_upto(tok, u64::MAX as int) {
        Some(v) => Some(v as u64),
        None => None,
    }
}

pub open spec fn u32_field(tok: Seq<u8>) -> Option<u32> {
    match nat_upto(tok, u32::MAX as int) {
        Some(v) => Some(v as u32),
        None => None,
    }
}

pub open spec fn u16_field(tok: Seq<u8>) -> Option<u16> {
    match nat_upto(tok, u16::MAX as int) {
        Some(v) => Some(v as u16),
        None => None,
    }
}

pub open spec fn i64_field(tok: Seq<u8>) -> Option<i64> {
    match int_within(tok, i64::MIN as int, i64::MAX as int) {
        Some(v) => Some(v as i64),
        None => None,
    }
}

pub open spec fn i32_field(tok: Seq<u8>) -> Option<i32> {
    match int_within(tok, i32::MIN as int, i32::MAX as int) {
        Some(v) => Some(v as i32),
        None => None,
    }
}

/// Seconds, then nanoseconds below one second.
pub open spec fn timespec_field(sec: Seq<u8>, nsec: Seq<u8>) -> Option<Timespec> {
    match (i64_field(sec), int_within(nsec, 0, 999_999_999)) {
        (Some(s), Some(n)) => Some(Timespec { sec: s, nsec: n as i32 }),
        _ => None,
    }
}

/// `1` is a directory and `0` a regular file; no other code is a kind.
pub open spec fn kind_field(tok: Seq<u8>) -> Option<FileType> {
    match token_nat(tok) {
        Some(v) => if v == 1 {
            Some(FileType::Directory)
        } else if v == 0 {
            Some(FileType::RegularFile)
        } else {
            None
        },
        None => None,
    }
}

/// The attributes held by tokens `3 ..= 20`, in the order inode, size, blocks,
/// access, modification, change and creation times, kind, permissions, link
/// count, uid, gid, device and flags.
pub open spec fn attr_of(t: Seq<Seq<u8>>) -> Option<FileAttr> {
    let ino = u64_field(t[3]);
    let size = u64_field(t[4]);
    let blocks = u64_field(t[5]);
    let atime = timespec_field(t[6], t[7]);
    let mtime = timespec_field(t[8], t[9]);
    let ctime = timespec_field(t[10], t[11]);
    let crtime = timespec_field(t[12], t[13]);
    let kind = kind_field(t[14]);
    let perm = u16_field(t[15]);
    let nlink = u32_field(t[16]);
    let uid = u32_field(t[17]);
    let gid = u32_field(t[18]);
    let rdev = u32_field(t[19]);
    let flags = u32_field(t[20]);
    if ino is Some && size is Some && blocks is Some && atime is Some && mtime is Some
        && ctime is Some && crtime is Some && kind is Some && perm is Some && nlink is Some
        && uid is Some && gid is Some && rdev is Some && flags is Some {
        Some(
            FileAttr {
                ino: ino->Some_0,
                size: size->Some_0,
                blocks: blocks->Some_0,
                atime: atime->Some_0,
                mtime: mtime->Some_0,
                ctime: ctime->Some_0,
                crtime: crtime->Some_0,
                kind: kind->Some_0,
                perm: perm->Some_0,
                nlink: nlink->Some_0,
                uid: uid->Some_0,
                gid: gid->Some_0,
                rdev: rdev->Some_0,
                flags: flags->Some_0,
            },
        )
    } else {
        None
    }
}

/// Validity period in tokens `1, 2`, then the attributes.
pub open spec fn attr_reply_of(t: Seq<Seq<u8>>) -> Option<AttrReply> {
    match (timespec_field(t[1], t[2]), attr_of(t)) {
        (Some(ttl), Some(attr)) => Some(AttrReply { ttl, attr }),
        _ => None,
    }
}

/// The attribute reply, then the generation in token `21`.
pub open spec fn entry_reply_of(t: Seq<Seq<u8>>) -> Option<EntryReply> {
    match (attr_reply_of(t), u64_field(t[21])) {
        (Some(a), Some(generation)) => Some(EntryReply { ttl: a.ttl, attr: a.attr, generation }),
        _ => None,
    }
}

/// The entry reply, then the file handle in token `22` and the flags in token `23`.
pub open spec fn create_reply_of(t: Seq<Seq<u8>>) -> Option<CreateReply> {
    match (entry_reply_of(t), u64_field(t[22]), u32_field(t[23])) {
        (Some(e), Some(fh), Some(flags)) => Some(
            CreateReply { ttl: e.ttl, attr: e.attr, generation: e.generation, fh, flags },
        ),
        _ => None,
    }
}

/// The file handle in token `1` and the flags in token `2`.
pub open spec fn open_reply_of(t: Seq<Seq<u8>>) -> Option<OpenReply> {
    match (u64_field(t[1]), u32_field(t[2])) {
        (Some(fh), Some(flags)) => Some(OpenReply { fh, flags }),
        _ => None,
    }
}

/// Blocks, free blocks, available blocks, files, free files, block size,
/// name length and fragment size, in tokens `1 ..= 8`.
pub open spec fn statfs_reply_of(t: Seq<Seq<u8>>) -> Option<StatfsReply> {
    let blocks = u64_field(t[1]);
    let bfree = u64_field(t[2]);
    let bavail = u64_field(t[3]);
    let files = u64_field(t[4]);
    let ffree = u64_field(t[5]);
    let bsize = u32_field(t[6]);
    let namelen = u32_field(t[7]);
    let frsize = u32_field(t[8]);
    if blocks is Some && bfree is Some && bavail is Some && files is Some && ffree is Some
        && bsize is Some && namelen is Some && frsize is Some {
        Some(
            StatfsReply {
                blocks: blocks->Some_0,
                bfree: bfree->Some_0,
                bavail: bavail->Some_0,
                files: files->Some_0,
                ffree: ffree->Some_0,
                bsize: bsize->Some_0,
                namelen: namelen->Some_0,
                frsize: frsize->Some_0,
            },
        )
    } else {
        None
    }
}

/// The length written, in token `1`.
pub open spec fn written_of(t: Seq<Seq<u8>>) -> Option<u32> {
    u32_field(t[1])
}

// ---------------------------------------------------------------------------
// Status
// ---------------------------------------------------------------------------

/// What an `Err` record at token `k` reports: the server's code, if token
/// `k + 1` holds one.
pub open spec fn refusal_at(t: Seq<Seq<u8>>, k: int) -> Failure {
    if k + 1 < t.len() && i32_field(t[k + 1]) is Some {
        Failure::Server(i32_field(t[k + 1])->Some_0)
    } else {
        Failure::Malformed
    }
}

/// The status of a reply: `Ok` with at least `min` tokens, `Err` with a code, or
/// malformed.
pub open spec fn status(t: Seq<Seq<u8>>, min: int) -> Result<(), Failure> {
    if t[0] == tag_ok() {
        if t.len() >= min {
            Ok(())
        } else {
            Err(Failure::Malformed)
        }
    } else if t[0] == tag_err() {
        Err(refusal_at(t, 0))
    } else {
        Err(Failure::Malformed)
    }
}

/// A reply that carries `payload` when its status is `Ok`.
pub open spec fn outcome<T>(t: Seq<Seq<u8>>, min: int, payload: Option<T>) -> Result<T, Failure> {
    match status(t, min) {
        Ok(_) => match payload {
            Some(p) => Ok(p),
            None => Err(Failure::Malformed),
        },
        Err(f) => Err(f),
    }
}

pub open spec fn attr_response(s: Seq<u8>) -> Result<AttrReply, Failure> {
    outcome(split_spaces(s), ATTR_TOKENS as int, attr_reply_of(split_spaces(s)))
}

pub open spec fn entry_response(s: Seq<u8>) -> Result<EntryReply, Failure> {
    outcome(split_spaces(s), ENTRY_TOKENS as int, entry_reply_of(split_spaces(s)))
}

pub open spec fn create_response(s: Seq<u8>) -> Result<CreateReply, Failure> {
    outcome(split_spaces(s), CREATE_TOKENS as int, create_reply_of(split_spaces(s)))
}

pub open spec fn open_response(s: Seq<u8>) -> Result<OpenReply, Failure> {
    outcome(split_spaces(s), OPEN_TOKENS as int, open_reply_of(split_spaces(s)))
}

pub open spec fn statfs_response(s: Seq<u8>) -> Result<StatfsReply, Failure> {
    outcome(split_spaces(s), STATFS_TOKENS as int, statfs_reply_of(split_spaces(s)))
}

pub open spec fn written_response(s: Seq<u8>) -> Result<u32, Failure> {
    outcome(split_spaces(s), WRITTEN_TOKENS as int, written_of(split_spaces(s)))
}

pub open spec fn empty_response(s: Seq<u8>) -> Result<(), Failure> {
    status(split_spaces(s), 1)
}

/// The payload of a data reply: what follows `Ok` and its space.
pub open spec fn data_payload(s: Seq<u8>) -> Seq<u8> {
    if s.len() <= DATA_PREFIX {
        Seq::empty()
    } else {
        s.subrange(DATA_PREFIX as int, s.len() as int)
    }
}

/// A reply to readlink, or to a read of `size` bytes: the payload, of which at
/// most `size` bytes are taken, after an `Ok` tag.
pub open spec fn data_response(s: Seq<u8>, size: nat) -> Result<Seq<u8>, Failure> {
    match status(split_spaces(s), 1) {
        Ok(_) => {
            let p = data_payload(s);
            Ok(
                if p.len() <= size {
                    p
                } else {
                    p.subrange(0, size as int)
                },
            )
        },
        Err(f) => Err(f),
    }
}

// ---------------------------------------------------------------------------
// Executable decoding
// ---------------------------------------------------------------------------

fn is_tag(buf: &[u8], span: (usize, usize), a: u8, b: u8, c: u8, len: usize) -> (r: bool)
    requires
        span.0 <= span.1 <= buf@.len(),
        len == 2 || len == 3,
    ensures
        r == (span_token(buf@, span) == (if len == 2 {
            seq![a, b]
        } else {
            seq![a, b, c]
        })),
{
    let ghost lit = if len == 2 {
        seq![a, b]
    } else {
        seq![a, b, c]
    };
    let n = span.1 - span.0;
    if n != len {
        proof {
            assert(span_token(buf@, span).len() != lit.len());
        }
        return false;
    }
    let r = buf[span.0] == a && buf[span.0 + 1] == b && (len == 2 || buf[span.0 + 2] == c);
    proof {
        if r {
            assert(span_token(buf@, span) =~= lit);
        } else {
            if span_token(buf@, span) == lit {
                assert(span_token(buf@, span)[0] == lit[0]);
                assert(span_token(buf@, span)[1] == lit[1]);
                if len == 3 {
                    assert(span_token(buf@, span)[2] == lit[2]);
                }
            }
        }
    }
    r
}

pub(crate) fn is_ok(buf: &[u8], span: (usize, usize)) -> (r: bool)
    requires
        span.0 <= span.1 <= buf@.len(),
    ensures
        r == (span_token(buf@, span) == tag_ok()),
{
    is_tag(buf, span, 79, 107, 0, 2)
}

pub(crate) fn is_err(buf: &[u8], span: (usize, usize)) -> (r: bool)
    requires
        span.0 <= span.1 <= buf@.len(),
    ensures
        r == (span_token(buf@, span) == tag_err()),
{
    is_tag(buf, span, 69, 114, 114, 3)
}

pub(crate) fn is_add(buf: &[u8], span: (usize, usize)) -> (r: bool)
    requires
        span.0 <= span.1 <= buf@.len(),
    ensures
        r == (span_token(buf@, span) == tag_add()),
{
    is_tag(buf, span, 65, 100, 100, 3)
}

pub(crate) fn field_u64(buf: &[u8], spans: &Vec<(usize, usize)>, i: usize) -> (r: Option<u64>)
    requires
        spans_of(buf@, spans@),
        i < spans@.len(),
    ensures
        r == u64_field(split_spaces(buf@)[i as int]),
{
    let span = spans[i];
    assert(span_token(buf@, span) == split_spaces(buf@)[i as int]);
    parse_unsigned(buf, span, u64::MAX)
}

fn field_u32(buf: &[u8], spans: &Vec<(usize, usize)>, i: usize) -> (r: Option<u32>)
    requires
        spans_of(buf@, spans@),
        i < spans@.len(),
    ensures
        r == u32_field(split_spaces(buf@)[i as int]),
{
    let span = spans[i];
    assert(span_token(buf@, span) == split_spaces(buf@)[i as int]);
    match parse_unsigned(buf, span, u32::MAX as u64) {
        Some(v) => Some(v as u32),
        None => None,
    }
}

fn field_u16(buf: &[u8], spans: &Vec<(usize, usize)>, i: usize) -> (r: Option<u16>)
    requires
        spans_of(buf@, spans@),
        i < spans@.len(),
    ensures
        r == u16_field(split_spaces(buf@)[i as int]),
{
    let span = spans[i];
    assert(span_token(buf@, span) == split_spaces(buf@)[i as int]);
    match parse_unsigned(buf, span, u16::MAX as u64) {
        Some(v) => Some(v as u16),
        None => None,
    }
}

pub(crate) fn field_i64(buf: &[u8], spans: &Vec<(usize, usize)>, i: usize) -> (r: Option<i64>)
    requires
        spans_of(buf@, spans@),
        i < spans@.len(),
    ensures
        r == i64_field(split_spaces(buf@)[i as int]),
{
    let span = spans[i];
    assert(span_token(buf@, span) == split_spaces(buf@)[i as int]);
    parse_signed(buf, span, 0x8000_0000_0000_0000, 0x7fff_ffff_ffff_ffff)
}

fn field_i32(buf: &[u8], spans: &Vec<(usize, usize)>, i: usize) -> (r: Option<i32>)
    requires
        spans_of(buf@, spans@),
        i < spans@.len(),
    ensures
        r == i32_field(split_spaces(buf@)[i as int]),
{
    let span = spans[i];
    assert(span_token(buf@, span) == split_spaces(buf@)[i as int]);
    match parse_signed(buf, span, 0x8000_0000, 0x7fff_ffff) {
        Some(v) => Some(v as i32),
        None => None,
    }
}

fn field_timespec(buf: &[u8], spans: &Vec<(usize, usize)>, i: usize) -> (r: Option<Timespec>)
    requires
        spans_of(buf@, spans@),
        i + 1 < spans@.len(),
    ensures
        r == timespec_field(split_spaces(buf@)[i as int], split_spaces(buf@)[i + 1]),
        r matches Some(ts) ==> ts.wf(),
{
    let sec = field_i64(buf, spans, i);
    let n = spans.len();
    assert(i < n - 1);
    let span = spans[i + 1];
    assert(span_token(buf@, span) == split_spaces(buf@)[i + 1]);
    let nsec = parse_signed(buf, span, 0, 999_999_999);
    match (sec, nsec) {
        (Some(s), Some(n)) => Some(Timespec { sec: s, nsec: n as i32 }),
        _ => None,
    }
}

pub(crate) fn field_kind(buf: &[u8], spans: &Vec<(usize, usize)>, i: usize) -> (r: Option<FileType>)
    requires
        spans_of(buf@, spans@),
        i < spans@.len(),
    ensures
        r == kind_field(split_spaces(buf@)[i as int]),
{
    let span = spans[i];
    assert(span_token(buf@, span) == split_spaces(buf@)[i as int]);
    match parse_unsigned(buf, span, 1) {
        Some(v) => if v == 1 {
            Some(FileType::Directory)
        } else {
            Some(FileType::RegularFile)
        },
        None => None,
    }
}

fn parse_attr(buf: &[u8], spans: &Vec<(usize, usize)>) -> (r: Option<FileAttr>)
    requires
        spans_of(buf@, spans@),
        spans@.len() >= ATTR_TOKENS,
    ensures
        r == attr_of(split_spaces(buf@)),
{
    let ino = field_u64(buf, spans, 3);
    let size = field_u64(buf, spans, 4);
    let blocks = field_u64(buf, spans, 5);
    let atime = field_timespec(buf, spans, 6);
    let mtime = field_timespec(buf, spans, 8);
    let ctime = field_timespec(buf, spans, 10);
    let crtime = field_timespec(buf, spans, 12);
    let kind = field_kind(buf, spans, 14);
    let perm = field_u16(buf, spans, 15);
    let nlink = field_u32(buf, spans, 16);
    let uid = field_u32(buf, spans, 17);
    let gid = field_u32(buf, spans, 18);
    let rdev = field_u32(buf, spans, 19);
    let flags = field_u32(buf, spans, 20);
    match (ino, size, blocks, atime, mtime, ctime, crtime) {
        (Some(ino), Some(size), Some(blocks), Some(atime), Some(mtime), Some(ctime), Some(crtime)) => {
            match (kind, perm, nlink, uid, gid, rdev, flags) {
                (Some(kind), Some(perm), Some(nlink), Some(uid), Some(gid), Some(rdev), Some(flags)) => {
                    Some(
                        FileAttr {
                            ino,
                            size,
                            blocks,
                            atime,
                            mtime,
                            ctime,
                            crtime,
                            kind,
                            perm,
                            nlink,
                            uid,
                            gid,
                            rdev,
                            flags,
                        },
                    )
                },
                _ => None,
            }
        },
        _ => None,
    }
}

fn parse_attr_reply(buf: &[u8], spans: &Vec<(usize, usize)>) -> (r: Option<AttrReply>)
    requires
        spans_of(buf@, spans@),
        spans@.len() >= ATTR_TOKENS,
    ensures
        r == attr_reply_of(split_spaces(buf@)),
{
    match (field_timespec(buf, spans, 1), parse_attr(buf, spans)) {
        (Some(ttl), Some(attr)) => Some(AttrReply { ttl, attr }),
        _ => None,
    }
}

fn parse_entry_reply(buf: &[u8], spans: &Vec<(usize, usize)>) -> (r: Option<EntryReply>)
    requires
        spans_of(buf@, spans@),
        spans@.len() >= ENTRY_TOKENS,
    ensures
        r == entry_reply_of(split_spaces(buf@)),
{
    match (parse_attr_reply(buf, spans), field_u64(buf, spans, 21)) {
        (Some(a), Some(generation)) => Some(EntryReply { ttl: a.ttl, attr: a.attr, generation }),
        _ => None,
    }
}

/// The status of the reply in `buf`, whose tokens are `spans`.
fn check_status(buf: &[u8], spans: &Vec<(usize, usize)>, min: usize) -> (r: Result<(), Failure>)
    requires
        spans_of(buf@, spans@),
    ensures
        r == status(split_spaces(buf@), min as int),
{
    proof {
        crate::wire::lemma_split_nonempty(buf@);
        assert(span_token(buf@, spans@[0]) == split_spaces(buf@)[0]);
    }
    if is_ok(buf, spans[0]) {
        if spans.len() >= min {
            Ok(())
        } else {
            Err(Failure::Malformed)
        }
    } else if is_err(buf, spans[0]) {
        Err(refusal(buf, spans, 0))
    } else {
        Err(Failure::Malformed)
    }
}

/// What the `Err` record at token `k` reports.
pub(crate) fn refusal(buf: &[u8], spans: &Vec<(usize, usize)>, k: usize) -> (r: Failure)
    requires
        spans_of(buf@, spans@),
        k < spans@.len(),
    ensures
        r == refusal_at(split_spaces(buf@), k as int),
{
    if k < spans.len() - 1 {
        match field_i32(buf, spans, k + 1) {
            Some(code) => Failure::Server(code),
            None => Failure::Malformed,
        }
    } else {
        Failure::Malformed
    }
}

/// Decodes the reply to getattr or setattr.
pub fn decode_attr(resp: &[u8]) -> (r: Result<AttrReply, Failure>)
    ensures
        r == attr_response(resp@),
        r matches Ok(a) ==> a.ttl.wf() && a.attr.wf(),
{
    let spans = split_tokens(resp);
    match check_status(resp, &spans, ATTR_TOKENS) {
        Ok(()) => match parse_attr_reply(resp, &spans) {
            Some(a) => Ok(a),
            None => Err(Failure::Malformed),
        },
        Err(f) => Err(f),
    }
}

/// Decodes the reply to lookup, mkdir or symlink.
pub fn decode_entry(resp: &[u8]) -> (r: Result<EntryReply, Failure>)
    ensures
        r == entry_response(resp@),
        r matches Ok(e) ==> e.ttl.wf() && e.attr.wf(),
{
    let spans = split_tokens(resp);
    match check_status(resp, &spans, ENTRY_TOKENS) {
        Ok(()) => match parse_entry_reply(resp, &spans) {
            Some(e) => Ok(e),
            None => Err(Failure::Malformed),
        },
        Err(f) => Err(f),
    }
}

/// Decodes the reply to create.
pub fn decode_create(resp: &[u8]) -> (r: Result<CreateReply, Failure>)
    ensures
        r == create_response(resp@),
        r matches Ok(c) ==> c.ttl.wf() && c.attr.wf(),
{
    let spans = split_tokens(resp);
    match check_status(resp, &spans, CREATE_TOKENS) {
        Ok(()) => match (
            parse_entry_reply(resp, &spans),
            field_u64(resp, &spans, 22),
            field_u32(resp, &spans, 23),
        ) {
            (Some(e), Some(fh), Some(flags)) => Ok(
                CreateReply { ttl: e.ttl, attr: e.attr, generation: e.generation, fh, flags },
            ),
            _ => Err(Failure::Malformed),
        },
        Err(f) => Err(f),
    }
}

/// Decodes the reply to open or opendir.
pub fn decode_open(resp: &[u8]) -> (r: Result<OpenReply, Failure>)
    ensures
        r == open_response(resp@),
{
    let spans = split_tokens(resp);
    match check_status(resp, &spans, OPEN_TOKENS) {
        Ok(()) => match (field_u64(resp, &spans, 1), field_u32(resp, &spans, 2)) {
            (Some(fh), Some(flags)) => Ok(OpenReply { fh, flags }),
            _ => Err(Failure::Malformed),
        },
        Err(f) => Err(f),
    }
}

/// Decodes the reply to statfs.
pub fn decode_statfs(resp: &[u8]) -> (r: Result<StatfsReply, Failure>)
    ensures
        r == statfs_response(resp@),
{
    let spans = split_tokens(resp);
    match check_status(resp, &spans, STATFS_TOKENS) {
        Ok(()) => {
            let blocks = field_u64(resp, &spans, 1);
            let bfree = field_u64(resp, &spans, 2);
            let bavail = field_u64(resp, &spans, 3);
            let files = field_u64(resp, &spans, 4);
            let ffree = field_u64(resp, &spans, 5);
            let bsize = field_u32(resp, &spans, 6);
            let namelen = field_u32(resp, &spans, 7);
            let frsize = field_u32(resp, &spans, 8);
            match (blocks, bfree, bavail, files, ffree, bsize, namelen, frsize) {
                (
                    Some(blocks),
                    Some(bfree),
                    Some(bavail),
                    Some(files),
                    Some(ffree),
                    Some(bsize),
                    Some(namelen),
                    Some(frsize),
                ) => Ok(StatfsReply { blocks, bfree, bavail, files, ffree, bsize, namelen, frsize }),
                _ => Err(Failure::Malformed),
            }
        },
        Err(f) => Err(f),
    }
}

/// Decodes the reply to one chunk of a write: the number of bytes the server took.
pub fn decode_written(resp: &[u8]) -> (r: Result<u32, Failure>)
    ensures
        r == written_response(resp@),
{
    let spans = split_tokens(resp);
    match check_status(resp, &spans, WRITTEN_TOKENS) {
        Ok(()) => match field_u32(resp, &spans, 1) {
            Some(n) => Ok(n),
            None => Err(Failure::Malformed),
        },
        Err(f) => Err(f),
    }
}

/// Decodes the reply to rmdir, unlink, rename, fsync or fsyncdir, which carries
/// no payload.
pub fn decode_empty(resp: &[u8]) -> (r: Result<(), Failure>)
    ensures
        r == empty_response(resp@),
{
    let spans = split_tokens(resp);
    check_status(resp, &spans, 1)
}

/// Decodes the reply to a read of `size` bytes, or, with `size` the capacity of
/// the receive buffer, to readlink.
pub fn decode_data(resp: &[u8], size: usize) -> (r: Result<Vec<u8>, Failure>)
    ensures
        match (r, data_response(resp@, size as nat)) {
            (Ok(d), Ok(e)) => d@ == e,
            (Err(f), Err(g)) => f == g,
            _ => false,
        },
{
    let spans = split_tokens(resp);
    match check_status(resp, &spans, 1) {
        Ok(()) => {
            let mut out: Vec<u8> = Vec::new();
            if resp.len() > DATA_PREFIX {
                let end: usize = if resp.len() - DATA_PREFIX <= size {
                    resp.len()
                } else {
                    DATA_PREFIX + size
                };
                let mut i: usize = DATA_PREFIX;
                while i < end
                    invariant
                        DATA_PREFIX <= i <= end <= resp@.len(),
                        out@ == resp@.subrange(DATA_PREFIX as int, i as int),
                    decreases end - i,
                {
                    out.push(resp[i]);
                    i = i + 1;
                    proof {
                        assert(out@ =~= resp@.subrange(DATA_PREFIX as int, i as int));
                    }
                }
                proof {
                    let p = data_payload(resp@);
                    if p.len() <= size {
                        assert(out@ =~= p);
                    } else {
                        assert(out@ =~= p.subrange(0, size as int));
                    }
                }
            } else {
                proof {
                    assert(out@ =~= data_payload(resp@));
                }
            }
            Ok(out)
        },
        Err(f) => Err(f),
    }
}

} // verus!
