use vstd::prelude::*;

use crate::wire::{decimal, push_bytes, push_decimal, push_signed, signed_decimal, SPACE};

verus! {

/// The capacity of the buffer a reply is received into.
pub const RESPONSE_CAPACITY: usize = 4096;

/// The operation a request line asks for: its leading token.
#[derive(Clone, Copy, Debug, PartialEq, Eq, Structural)]
pub enum Verb {
    Lookup,
    Getattr,
    Setattr,
    Create,
    Mkdir,
    Open,
    Opendir,
    Read,
    Write,
    Readdir,
    Rmdir,
    Unlink,
    Rename,
    Symlink,
    Readlink,
    Fsync,
    Fsyncdir,
    Statfs,
    Exit,
}

/// The ASCII text of each verb, in lower case.
pub open spec fn verb_text(v: Verb) -> Seq<u8> {
    match v {
        Verb::Lookup => seq![108u8, 111, 111, 107, 117, 112],
        Verb::Getattr => seq![103u8, 101, 116, 97, 116, 116, 114],
        Verb::Setattr => seq![115u8, 101, 116, 97, 116, 116, 114],
        Verb::Create => seq![99u8, 114, 101, 97, 116, 101],
        Verb::Mkdir => seq![109u8, 107, 100, 105, 114],
        Verb::Open => seq![111u8, 112, 101, 110],
        Verb::Opendir => seq![111u8, 112, 101, 110, 100, 105, 114],
        Verb::Read => seq![114u8, 101, 97, 100],
        Verb::Write => seq![119u8, 114, 105, 116, 101],
        Verb::Readdir => seq![114u8, 101, 97, 100, 100, 105, 114],
        Verb::Rmdir => seq![114u8, 109, 100, 105, 114],
        Verb::Unlink => seq![117u8, 110, 108, 105, 110, 107],
        Verb::Rename => seq![114u8, 101, 110, 97, 109, 101],
        Verb::Symlink => seq![115u8, 121, 109, 108, 105, 110, 107],
        Verb::Readlink => seq![114u8, 101, 97, 100, 108, 105, 110, 107],
        Verb::Fsync => seq![102u8, 115, 121, 110, 99],
        Verb::Fsyncdir => seq![102u8, 115, 121, 110, 99, 100, 105, 114],
        Verb::Statfs => seq![115u8, 116, 97, 116, 102, 115],
        Verb::Exit => seq![101u8, 120, 105, 116],
    }
}

/// `None`, which setattr sends when the size is left as it is.
pub open spec fn none_text() -> Seq<u8> {
    seq![78u8, 111, 110, 101]
}

/// `a`, a space, then `b`.
pub open spec fn spaced(a: Seq<u8>, b: Seq<u8>) -> Seq<u8> {
    a + seq![SPACE] + b
}

/// `verb <ino>`
pub open spec fn ino_request(v: Verb, ino: u64) -> Seq<u8> {
    spaced(verb_text(v), decimal(ino as nat))
}

/// `verb <parent> <name>`
pub open spec fn name_request(v: Verb, parent: u64, name: Seq<u8>) -> Seq<u8> {
    spaced(ino_request(v, parent), name)
}

/// `setattr <ino> <size>`, or `setattr <ino> None`.
pub open spec fn setattr_request(ino: u64, size: Option<u64>) -> Seq<u8> {
    spaced(
        ino_request(Verb::Setattr, ino),
        match size {
            Some(n) => decimal(n as nat),
            None => none_text(),
        },
    )
}

/// `open <ino> <flags>`
pub open spec fn open_request(ino: u64, flags: u32) -> Seq<u8> {
    spaced(ino_request(Verb::Open, ino), decimal(flags as nat))
}

/// `read <ino> <offset> <size>`
pub open spec fn read_request(ino: u64, offset: i64, size: u32) -> Seq<u8> {
    spaced(
        spaced(ino_request(Verb::Read, ino), signed_decimal(offset as int)),
        decimal(size as nat),
    )
}

/// `write <ino> <offset> <data>`, the data as raw bytes.
pub open spec fn write_request(ino: u64, offset: int, data: Seq<u8>) -> Seq<u8> {
    spaced(spaced(ino_request(Verb::Write, ino), signed_decimal(offset)), data)
}

/// `readdir <ino> <offset>`
pub open spec fn readdir_request(ino: u64, offset: i64) -> Seq<u8> {
    spaced(ino_request(Verb::Readdir, ino), signed_decimal(offset as int))
}

/// `rename <parent> <name> <new parent> <new name> <flags>`
pub open spec fn rename_request(
    parent: u64,
    name: Seq<u8>,
    new_parent: u64,
    new_name: Seq<u8>,
    flags: u32,
) -> Seq<u8> {
    spaced(
        spaced(
            spaced(name_request(Verb::Rename, parent, name), decimal(new_parent as nat)),
            new_name,
        ),
        decimal(flags as nat),
    )
}

/// `symlink <parent> <name> <target>`
pub open spec fn symlink_request(parent: u64, name: Seq<u8>, target: Seq<u8>) -> Seq<u8> {
    spaced(name_request(Verb::Symlink, parent, name), target)
}

/// The text of `v`.
pub fn verb_bytes(v: Verb) -> (r: Vec<u8>)
    ensures
        r@ == verb_text(v),
{
    let r: Vec<u8> = match v {
        Verb::Lookup => vec![108u8, 111, 111, 107, 117, 112],
        Verb::Getattr => vec![103u8, 101, 116, 97, 116, 116, 114],
        Verb::Setattr => vec![115u8, 101, 116, 97, 116, 116, 114],
        Verb::Create => vec![99u8, 114, 101, 97, 116, 101],
        Verb::Mkdir => vec![109u8, 107, 100, 105, 114],
        Verb::Open => vec![111u8, 112, 101, 110],
        Verb::Opendir => vec![111u8, 112, 101, 110, 100, 105, 114],
        Verb::Read => vec![114u8, 101, 97, 100],
        Verb::Write => vec![119u8, 114, 105, 116, 101],
        Verb::Readdir => vec![114u8, 101, 97, 100, 100, 105, 114],
        Verb::Rmdir => vec![114u8, 109, 100, 105, 114],
        Verb::Unlink => vec![117u8, 110, 108, 105, 110, 107],
        Verb::Rename => vec![114u8, 101, 110, 97, 109, 101],
        Verb::Symlink => vec![115u8, 121, 109, 108, 105, 110, 107],
        Verb::Readlink => vec![114u8, 101, 97, 100, 108, 105, 110, 107],
        Verb::Fsync => vec![102u8, 115, 121, 110, 99],
        Verb::Fsyncdir => vec![102u8, 115, 121, 110, 99, 100, 105, 114],
        Verb::Statfs => vec![115u8, 116, 97, 116, 102, 115],
        Verb::Exit => vec![101u8, 120, 105, 116],
    };
    assert(r@ =~= verb_text(v));
    r
}

/// Appends a space, then `b`.
fn push_spaced(out: &mut Vec<u8>, b: &[u8])
    ensures
        final(out)@ == spaced(old(out)@, b@),
{
    out.push(SPACE);
    push_bytes(out, b);
    proof {
        assert(final(out)@ =~= spaced(old(out)@, b@));
    }
}

/// Appends a space, then the decimal rendering of `n`.
fn push_spaced_decimal(out: &mut Vec<u8>, n: u64)
    ensures
        final(out)@ == spaced(old(out)@, decimal(n as nat)),
{
    out.push(SPACE);
    push_decimal(out, n);
    proof {
        assert(final(out)@ =~= spaced(old(out)@, decimal(n as nat)));
    }
}

/// Appends a space, then the signed decimal rendering of `v`.
fn push_spaced_signed(out: &mut Vec<u8>, v: i64)
    ensures
        final(out)@ == spaced(old(out)@, signed_decimal(v as int)),
{
    out.push(SPACE);
    push_signed(out, v);
    proof {
        assert(final(out)@ =~= spaced(old(out)@, signed_decimal(v as int)));
    }
}

fn ino_line(v: Verb, ino: u64) -> (r: Vec<u8>)
    ensures
        r@ == ino_request(v, ino),
{
    let mut out = verb_bytes(v);
    push_spaced_decimal(&mut out, ino);
    out
}

fn name_line(v: Verb, parent: u64, name: &[u8]) -> (r: Vec<u8>)
    ensures
        r@ == name_request(v, parent, name@),
{
    let mut out = ino_line(v, parent);
    push_spaced(&mut out, name);
    out
}

/// `lookup <parent> <name>`
pub fn encode_lookup(parent: u64, name: &[u8]) -> (r: Vec<u8>)
    ensures
        r@ == name_request(Verb::Lookup, parent, name@),
{
    name_line(Verb::Lookup, parent, name)
}

/// `getattr <ino>`
pub fn encode_getattr(ino: u64) -> (r: Vec<u8>)
    ensures
        r@ == ino_request(Verb::Getattr, ino),
{
    ino_line(Verb::Getattr, ino)
}

/// `setattr <ino> <size>`, with `None` for a size left as it is.
pub fn encode_setattr(ino: u64, size: Option<u64>) -> (r: Vec<u8>)
    ensures
        r@ == setattr_request(ino, size),
{
    let mut out = ino_line(Verb::Setattr, ino);
    match size {
        Some(n) => push_spaced_decimal(&mut out, n),
        None => {
            let none: Vec<u8> = vec![78u8, 111, 110, 101];
            assert(none@ =~= none_text());
            push_spaced(&mut out, none.as_slice());
        },
    }
    out
}

/// `create <parent> <name>`
pub fn encode_create(parent: u64, name: &[u8]) -> (r: Vec<u8>)
    ensures
        r@ == name_request(Verb::Create, parent, name@),
{
    name_line(Verb::Create, parent, name)
}

/// `mkdir <parent> <name>`
pub fn encode_mkdir(parent: u64, name: &[u8]) -> (r: Vec<u8>)
    ensures
        r@ == name_request(Verb::Mkdir, parent, name@),
{
    name_line(Verb::Mkdir, parent, name)
}

/// `open <ino> <flags>`
pub fn encode_open(ino: u64, flags: u32) -> (r: Vec<u8>)
    ensures
        r@ == open_request(ino, flags),
{
    let mut out = ino_line(Verb::Open, ino);
    push_spaced_decimal(&mut out, flags as u64);
    out
}

/// `opendir <ino>`
pub fn encode_opendir(ino: u64) -> (r: Vec<u8>)
    ensures
        r@ == ino_request(Verb::Opendir, ino),
{
    ino_line(Verb::Opendir, ino)
}

/// `read <ino> <offset> <size>`
pub fn encode_read(ino: u64, offset: i64, size: u32) -> (r: Vec<u8>)
    ensures
        r@ == read_request(ino, offset, size),
{
    let mut out = ino_line(Verb::Read, ino);
    push_spaced_signed(&mut out, offset);
    push_spaced_decimal(&mut out, size as u64);
    out
}

/// The capacity of the buffer for the reply to a read of `size` bytes: the
/// payload and the `Ok` prefix before it.
pub fn read_capacity(size: u32) -> (r: usize)
    requires
        size + crate::response::DATA_PREFIX <= usize::MAX,
    ensures
        r == size + crate::response::DATA_PREFIX,
{
    size as usize + crate::response::DATA_PREFIX
}

/// `write <ino> <offset> <data>`
pub fn encode_write(ino: u64, offset: i64, data: &[u8]) -> (r: Vec<u8>)
    ensures
        r@ == write_request(ino, offset as int, data@),
{
    let mut out = ino_line(Verb::Write, ino);
    push_spaced_signed(&mut out, offset);
    push_spaced(&mut out, data);
    out
}

/// `readdir <ino> <offset>`
pub fn encode_readdir(ino: u64, offset: i64) -> (r: Vec<u8>)
    ensures
        r@ == readdir_request(ino, offset),
{
    let mut out = ino_line(Verb::Readdir, ino);
    push_spaced_signed(&mut out, offset);
    out
}

/// `rmdir <parent> <name>`
pub fn encode_rmdir(parent: u64, name: &[u8]) -> (r: Vec<u8>)
    ensures
        r@ == name_request(Verb::Rmdir, parent, name@),
{
    name_line(Verb::Rmdir, parent, name)
}

/// `unlink <parent> <name>`
pub fn encode_unlink(parent: u64, name: &[u8]) -> (r: Vec<u8>)
    ensures
        r@ == name_request(Verb::Unlink, parent, name@),
{
    name_line(Verb::Unlink, parent, name)
}

/// `rename <parent> <name> <new parent> <new name> <flags>`
pub fn encode_rename(parent: u64, name: &[u8], new_parent: u64, new_name: &[u8], flags: u32) -> (r:
    Vec<u8>)
    ensures
        r@ == rename_request(parent, name@, new_parent, new_name@, flags),
{
    let mut out = name_line(Verb::Rename, parent, name);
    push_spaced_decimal(&mut out, new_parent);
    push_spaced(&mut out, new_name);
    push_spaced_decimal(&mut out, flags as u64);
    out
}

/// `symlink <parent> <name> <target>`
pub fn encode_symlink(parent: u64, name: &[u8], target: &[u8]) -> (r: Vec<u8>)
    ensures
        r@ == symlink_request(parent, name@, target@),
{
    let mut out = name_line(Verb::Symlink, parent, name);
    push_spaced(&mut out, target);
    out
}

/// `readlink <ino>`
pub fn encode_readlink(ino: u64) -> (r: Vec<u8>)
    ensures
        r@ == ino_request(Verb::Readlink, ino),
{
    ino_line(Verb::Readlink, ino)
}

/// `fsync`
pub fn encode_fsync() -> (r: Vec<u8>)
    ensures
        r@ == verb_text(Verb::Fsync),
{
    verb_bytes(Verb::Fsync)
}

/// `fsyncdir`
pub fn encode_fsyncdir() -> (r: Vec<u8>)
    ensures
        r@ == verb_text(Verb::Fsyncdir),
{
    verb_bytes(Verb::Fsyncdir)
}

/// `statfs`
pub fn encode_statfs() -> (r: Vec<u8>)
    ensures
        r@ == verb_text(Verb::Statfs),
{
    verb_bytes(Verb::Statfs)
}

/// `exit`, the last request before the connection is shut down.
pub fn encode_exit() -> (r: Vec<u8>)
    ensures
        r@ == verb_text(Verb::Exit),
{
    verb_bytes(Verb::Exit)
}

} // verus!
