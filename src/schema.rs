use vstd::prelude::*;

use crate::attr::{kind_code, AttrReply, CreateReply, EntryReply, OpenReply, StatfsReply};
use crate::errno::{errno_of, Failure};
use crate::listing::readdir_response;
use crate::request::{ino_request, Verb};
use crate::response::{
    attr_reply_of, attr_response, create_response, data_response, empty_response, entry_response,
    open_response, statfs_response, tag_add, tag_err, tag_ok, written_response, ATTR_TOKENS,
    CREATE_TOKENS, ENTRY_TOKENS, OPEN_TOKENS, STATFS_TOKENS, WRITTEN_TOKENS,
};
use crate::wire::{
    has_no_space, lemma_numbers_line, lemma_signed_decimal, lemma_split_first, numbers_line,
    split_spaces, SPACE,
};

verus! {

// ---------------------------------------------------------------------------
// The field layout of each reply, as the server writes it: a tag, then numbers.
// ---------------------------------------------------------------------------

/// Validity period, inode, size, blocks, the four times, kind code,
/// permissions, link count, uid, gid, device and flags.
pub open spec fn attr_reply_values(r: AttrReply) -> Seq<int> {
    let a = r.attr;
    seq![
        r.ttl.sec as int,
        r.ttl.nsec as int,
        a.ino as int,
        a.size as int,
        a.blocks as int,
        a.atime.sec as int,
        a.atime.nsec as int,
        a.mtime.sec as int,
        a.mtime.nsec as int,
        a.ctime.sec as int,
        a.ctime.nsec as int,
        a.crtime.sec as int,
        a.crtime.nsec as int,
        kind_code(a.kind) as int,
        a.perm as int,
        a.nlink as int,
        a.uid as int,
        a.gid as int,
        a.rdev as int,
        a.flags as int,
    ]
}

/// The attribute reply, then the generation.
pub open spec fn entry_reply_values(e: EntryReply) -> Seq<int> {
    attr_reply_values(AttrReply { ttl: e.ttl, attr: e.attr }).push(e.generation as int)
}

/// The entry reply, then the file handle and the open flags.
pub open spec fn create_reply_values(c: CreateReply) -> Seq<int> {
    entry_reply_values(EntryReply { ttl: c.ttl, attr: c.attr, generation: c.generation }).push(
        c.fh as int,
    ).push(c.flags as int)
}

pub open spec fn open_reply_values(o: OpenReply) -> Seq<int> {
    seq![o.fh as int, o.flags as int]
}

pub open spec fn statfs_reply_values(s: StatfsReply) -> Seq<int> {
    seq![
        s.blocks as int,
        s.bfree as int,
        s.bavail as int,
        s.files as int,
        s.ffree as int,
        s.bsize as int,
        s.namelen as int,
        s.frsize as int,
    ]
}

proof fn lemma_tags()
    ensures
        has_no_space(tag_ok()),
        has_no_space(tag_err()),
        tag_ok() != tag_err(),
        tag_err() != tag_add(),
        tag_ok() != tag_add(),
{
    assert forall|i: int| 0 <= i < tag_ok().len() implies tag_ok()[i] != SPACE by {
        if i == 0 {
        } else {
        }
    }
    assert forall|i: int| 0 <= i < tag_err().len() implies tag_err()[i] != SPACE by {
        if i == 0 {
        } else if i == 1 {
        } else {
        }
    }
    assert(tag_ok().len() != tag_err().len());
    assert(tag_ok().len() != tag_add().len());
    assert(tag_err()[1] != tag_add()[1]);
}

/// Tokens that start with those of the attribute reply `r` hold `r`.
proof fn lemma_attr_tokens(t: Seq<Seq<u8>>, r: AttrReply)
    requires
        r.ttl.wf(),
        r.attr.wf(),
        t.len() >= ATTR_TOKENS,
        forall|k: int|
            1 <= k < ATTR_TOKENS ==> #[trigger] t[k] == crate::wire::signed_decimal(
                attr_reply_values(r)[k - 1],
            ),
    ensures
        attr_reply_of(t) == Some(r),
{
    broadcast use lemma_signed_decimal;

    let v = attr_reply_values(r);
    let a = r.attr;
    assert(t[1] == crate::wire::signed_decimal(v[0]));
    assert(t[2] == crate::wire::signed_decimal(v[1]));
    assert(t[3] == crate::wire::signed_decimal(v[2]));
    assert(t[4] == crate::wire::signed_decimal(v[3]));
    assert(t[5] == crate::wire::signed_decimal(v[4]));
    assert(t[6] == crate::wire::signed_decimal(v[5]));
    assert(t[7] == crate::wire::signed_decimal(v[6]));
    assert(t[8] == crate::wire::signed_decimal(v[7]));
    assert(t[9] == crate::wire::signed_decimal(v[8]));
    assert(t[10] == crate::wire::signed_decimal(v[9]));
    assert(t[11] == crate::wire::signed_decimal(v[10]));
    assert(t[12] == crate::wire::signed_decimal(v[11]));
    assert(t[13] == crate::wire::signed_decimal(v[12]));
    assert(t[14] == crate::wire::signed_decimal(v[13]));
    assert(t[15] == crate::wire::signed_decimal(v[14]));
    assert(t[16] == crate::wire::signed_decimal(v[15]));
    assert(t[17] == crate::wire::signed_decimal(v[16]));
    assert(t[18] == crate::wire::signed_decimal(v[17]));
    assert(t[19] == crate::wire::signed_decimal(v[18]));
    assert(t[20] == crate::wire::signed_decimal(v[19]));
    assert(crate::response::timespec_field(t[1], t[2]) == Some(r.ttl));
    assert(crate::response::timespec_field(t[6], t[7]) == Some(a.atime));
    assert(crate::response::timespec_field(t[8], t[9]) == Some(a.mtime));
    assert(crate::response::timespec_field(t[10], t[11]) == Some(a.ctime));
    assert(crate::response::timespec_field(t[12], t[13]) == Some(a.crtime));
    assert(crate::response::kind_field(t[14]) == Some(a.kind)) by {
        match a.kind {
            crate::attr::FileType::Directory => {},
            crate::attr::FileType::RegularFile => {},
        }
    }
    assert(crate::response::attr_of(t) == Some(a));
}

// ---------------------------------------------------------------------------
// Laws
// ---------------------------------------------------------------------------

/// The reply to getattr or setattr that the server lays out for `r` decodes to
/// `r`: decoder and layout agree on the count and order of the fields. The same
/// reply one field short is malformed.
pub proof fn lemma_attr_round_trip(r: AttrReply)
    requires
        r.ttl.wf(),
        r.attr.wf(),
    ensures
        1 + attr_reply_values(r).len() == ATTR_TOKENS,
        attr_response(numbers_line(tag_ok(), attr_reply_values(r))) == Ok::<AttrReply, Failure>(r),
        attr_response(numbers_line(tag_ok(), attr_reply_values(r).drop_last())) == Err::<
            AttrReply,
            Failure,
        >(Failure::Malformed),
{
    broadcast use lemma_signed_decimal;

    lemma_tags();
    let vals = attr_reply_values(r);
    lemma_numbers_line(tag_ok(), vals);
    lemma_numbers_line(tag_ok(), vals.drop_last());
    let t = split_spaces(numbers_line(tag_ok(), vals));
    lemma_attr_tokens(t, r);
}

/// The reply to lookup, mkdir or symlink that the server lays out for `e`
/// decodes to `e`; one field short, it is malformed.
pub proof fn lemma_entry_round_trip(e: EntryReply)
    requires
        e.ttl.wf(),
        e.attr.wf(),
    ensures
        1 + entry_reply_values(e).len() == ENTRY_TOKENS,
        entry_response(numbers_line(tag_ok(), entry_reply_values(e))) == Ok::<EntryReply, Failure>(
            e,
        ),
        entry_response(numbers_line(tag_ok(), entry_reply_values(e).drop_last())) == Err::<
            EntryReply,
            Failure,
        >(Failure::Malformed),
{
    broadcast use lemma_signed_decimal;

    lemma_tags();
    let vals = entry_reply_values(e);
    let r = AttrReply { ttl: e.ttl, attr: e.attr };
    lemma_numbers_line(tag_ok(), vals);
    lemma_numbers_line(tag_ok(), vals.drop_last());
    let t = split_spaces(numbers_line(tag_ok(), vals));
    assert forall|k: int| 1 <= k < ATTR_TOKENS implies #[trigger] t[k]
        == crate::wire::signed_decimal(attr_reply_values(r)[k - 1]) by {
        assert(vals[k - 1] == attr_reply_values(r)[k - 1]);
    }
    lemma_attr_tokens(t, r);
    assert(t[21] == crate::wire::signed_decimal(e.generation as int));
}

/// The reply to create that the server lays out for `c` decodes to `c`; one
/// field short, it is malformed.
pub proof fn lemma_create_round_trip(c: CreateReply)
    requires
        c.ttl.wf(),
        c.attr.wf(),
    ensures
        1 + create_reply_values(c).len() == CREATE_TOKENS,
        create_response(numbers_line(tag_ok(), create_reply_values(c))) == Ok::<
            CreateReply,
            Failure,
        >(c),
        create_response(numbers_line(tag_ok(), create_reply_values(c).drop_last())) == Err::<
            CreateReply,
            Failure,
        >(Failure::Malformed),
{
    broadcast use lemma_signed_decimal;

    lemma_tags();
    let vals = create_reply_values(c);
    let r = AttrReply { ttl: c.ttl, attr: c.attr };
    let e = EntryReply { ttl: c.ttl, attr: c.attr, generation: c.generation };
    lemma_numbers_line(tag_ok(), vals);
    lemma_numbers_line(tag_ok(), vals.drop_last());
    let t = split_spaces(numbers_line(tag_ok(), vals));
    assert forall|k: int| 1 <= k < ATTR_TOKENS implies #[trigger] t[k]
        == crate::wire::signed_decimal(attr_reply_values(r)[k - 1]) by {
        assert(vals[k - 1] == attr_reply_values(r)[k - 1]);
    }
    lemma_attr_tokens(t, r);
    assert(t[21] == crate::wire::signed_decimal(c.generation as int));
    assert(t[22] == crate::wire::signed_decimal(c.fh as int));
    assert(t[23] == crate::wire::signed_decimal(c.flags as int));
    assert(crate::response::entry_reply_of(t) == Some(e));
}

/// The reply to open or opendir that the server lays out for `o` decodes to
/// `o`; one field short, it is malformed.
pub proof fn lemma_open_round_trip(o: OpenReply)
    ensures
        1 + open_reply_values(o).len() == OPEN_TOKENS,
        open_response(numbers_line(tag_ok(), open_reply_values(o))) == Ok::<OpenReply, Failure>(o),
        open_response(numbers_line(tag_ok(), open_reply_values(o).drop_last())) == Err::<
            OpenReply,
            Failure,
        >(Failure::Malformed),
{
    broadcast use lemma_signed_decimal;

    lemma_tags();
    let vals = open_reply_values(o);
    lemma_numbers_line(tag_ok(), vals);
    lemma_numbers_line(tag_ok(), vals.drop_last());
}

/// The reply to statfs that the server lays out for `s` decodes to `s`; one
/// field short, it is malformed.
pub proof fn lemma_statfs_round_trip(s: StatfsReply)
    ensures
        1 + statfs_reply_values(s).len() == STATFS_TOKENS,
        statfs_response(numbers_line(tag_ok(), statfs_reply_values(s))) == Ok::<
            StatfsReply,
            Failure,
        >(s),
        statfs_response(numbers_line(tag_ok(), statfs_reply_values(s).drop_last())) == Err::<
            StatfsReply,
            Failure,
        >(Failure::Malformed),
{
    broadcast use lemma_signed_decimal;

    lemma_tags();
    let vals = statfs_reply_values(s);
    lemma_numbers_line(tag_ok(), vals);
    lemma_numbers_line(tag_ok(), vals.drop_last());
}

/// The reply to a chunk of a write that reports `n` bytes decodes to `n`; with
/// the count left out, it is malformed.
pub proof fn lemma_written_round_trip(n: u32)
    ensures
        1 + seq![n as int].len() == WRITTEN_TOKENS,
        written_response(numbers_line(tag_ok(), seq![n as int])) == Ok::<u32, Failure>(n),
        written_response(numbers_line(tag_ok(), seq![n as int].drop_last())) == Err::<
            u32,
            Failure,
        >(Failure::Malformed),
{
    broadcast use lemma_signed_decimal;

    lemma_tags();
    lemma_numbers_line(tag_ok(), seq![n as int]);
    lemma_numbers_line(tag_ok(), seq![n as int].drop_last());
}

/// An `Err` reply with a code is reported with that code, unchanged, by the
/// decoder of every operation, and the code is the error number passed on.
pub proof fn lemma_server_code_passes(code: i32, size: nat)
    ensures
        ({
            let s = numbers_line(tag_err(), seq![code as int]);
            let f = Failure::Server(code);
            &&& attr_response(s) == Err::<AttrReply, Failure>(f)
            &&& entry_response(s) == Err::<EntryReply, Failure>(f)
            &&& create_response(s) == Err::<CreateReply, Failure>(f)
            &&& open_response(s) == Err::<OpenReply, Failure>(f)
            &&& statfs_response(s) == Err::<StatfsReply, Failure>(f)
            &&& written_response(s) == Err::<u32, Failure>(f)
            &&& empty_response(s) == Err::<(), Failure>(f)
            &&& data_response(s, size) == Err::<Seq<u8>, Failure>(f)
            &&& readdir_response(s) == (Seq::<crate::listing::EntryView>::empty(), Err::<(), Failure>(f))
            &&& errno_of(f) == code
        }),
{
    broadcast use lemma_signed_decimal;

    lemma_tags();
    lemma_numbers_line(tag_err(), seq![code as int]);
}

/// A read reply of `Ok`, a space and as many bytes as were asked for hands back
/// exactly those bytes, whatever they hold.
pub proof fn lemma_read_payload(payload: Seq<u8>)
    ensures
        data_response(tag_ok() + seq![SPACE] + payload, payload.len()) == Ok::<Seq<u8>, Failure>(
            payload,
        ),
{
    lemma_tags();
    let s = tag_ok() + seq![SPACE] + payload;
    lemma_split_first(tag_ok(), payload);
    assert(s.subrange(3, s.len() as int) =~= payload);
    if payload.len() == 0 {
        assert(payload =~= Seq::<u8>::empty());
    }
}

/// Two getattr calls for one inode send the same request, and equal replies
/// decode to equal attributes: the client keeps no state between calls.
pub proof fn lemma_getattr_idempotent(ino: u64, first: Seq<u8>, second: Seq<u8>)
    requires
        first == second,
    ensures
        ino_request(Verb::Getattr, ino) == ino_request(Verb::Getattr, ino),
        attr_response(first) == attr_response(second),
{
}

} // verus!
