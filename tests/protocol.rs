use xv6fs_client::attr::{FileType, Timespec};
use xv6fs_client::errno::Failure;
use xv6fs_client::fuse::fuse_dirent_align;
use xv6fs_client::listing::decode_readdir;
use xv6fs_client::request::{
    encode_create, encode_exit, encode_fsync, encode_fsyncdir, encode_getattr, encode_lookup,
    encode_mkdir, encode_open, encode_opendir, encode_read, encode_readdir, encode_readlink,
    encode_rename, encode_rmdir, encode_setattr, encode_statfs, encode_symlink, encode_unlink,
    encode_write, read_capacity, RESPONSE_CAPACITY,
};
use xv6fs_client::response::{
    decode_attr, decode_create, decode_data, decode_empty, decode_entry, decode_open,
    decode_statfs, decode_written,
};

const GETATTR_REPLY: &[u8] = b"Ok 100 0 42 4096 8 100 0 100 0 100 0 100 0 1 755 1 1000 1000 0 0";

#[test]
fn dirent_align_rounds_up_to_eight() {
    assert_eq!(fuse_dirent_align(0), 0);
    assert_eq!(fuse_dirent_align(1), 8);
    assert_eq!(fuse_dirent_align(7), 8);
    assert_eq!(fuse_dirent_align(8), 8);
    assert_eq!(fuse_dirent_align(9), 16);
    assert_eq!(fuse_dirent_align(24), 24);
}

#[test]
fn read_request_line() {
    assert_eq!(encode_read(7, 4096, 512), b"read 7 4096 512".to_vec());
    assert_eq!(encode_read(0, -3, 0), b"read 0 -3 0".to_vec());
    assert_eq!(
        encode_read(u64::MAX, i64::MIN, u32::MAX),
        b"read 18446744073709551615 -9223372036854775808 4294967295".to_vec()
    );
    assert_eq!(read_capacity(512), 515);
}

#[test]
fn read_reply_payload_follows_prefix() {
    let mut resp = b"Ok ".to_vec();
    resp.extend_from_slice(b"hello world");
    assert_eq!(resp.len(), 11 + 3);
    assert_eq!(decode_data(&resp, 11), Ok(b"hello world".to_vec()));
    assert_eq!(decode_data(b"Ok", 4), Ok(Vec::new()));
    assert_eq!(decode_data(b"Ok abcdef", 2), Ok(b"ab".to_vec()));
    assert_eq!(decode_data(b"Okay", 4), Err(Failure::Malformed));
}

#[test]
fn getattr_reply_decodes() {
    let r = decode_attr(GETATTR_REPLY).unwrap();
    assert_eq!(r.ttl, Timespec { sec: 100, nsec: 0 });
    assert_eq!(r.attr.ino, 42);
    assert_eq!(r.attr.size, 4096);
    assert_eq!(r.attr.blocks, 8);
    assert_eq!(r.attr.atime, Timespec { sec: 100, nsec: 0 });
    assert_eq!(r.attr.crtime, Timespec { sec: 100, nsec: 0 });
    assert_eq!(r.attr.kind, FileType::Directory);
    assert_eq!(r.attr.perm, 755);
    assert_eq!(r.attr.nlink, 1);
    assert_eq!(r.attr.uid, 1000);
    assert_eq!(r.attr.gid, 1000);
    assert_eq!(r.attr.rdev, 0);
    assert_eq!(r.attr.flags, 0);
}

#[test]
fn getattr_is_idempotent() {
    assert_eq!(encode_getattr(42), encode_getattr(42));
    assert_eq!(decode_attr(GETATTR_REPLY), decode_attr(GETATTR_REPLY));
}

#[test]
fn server_error_passes_through_every_decoder() {
    let resp = b"Err 2";
    assert_eq!(decode_attr(resp), Err(Failure::Server(2)));
    assert_eq!(decode_entry(resp), Err(Failure::Server(2)));
    assert_eq!(decode_create(resp), Err(Failure::Server(2)));
    assert_eq!(decode_open(resp), Err(Failure::Server(2)));
    assert_eq!(decode_statfs(resp), Err(Failure::Server(2)));
    assert_eq!(decode_written(resp), Err(Failure::Server(2)));
    assert_eq!(decode_empty(resp), Err(Failure::Server(2)));
    assert_eq!(decode_data(resp, 10), Err(Failure::Server(2)));
    assert_eq!(decode_readdir(resp), (Vec::new(), Err(Failure::Server(2))));
    assert_eq!(Failure::Server(2).errno(), 2);
}

#[test]
fn readdir_two_entries_then_end() {
    let (entries, end) = decode_readdir(b"Add 1 0 0 . Add 2 1 0 .. Ok");
    assert_eq!(end, Ok(()));
    assert_eq!(entries.len(), 2);
    assert_eq!(entries[0].ino, 1);
    assert_eq!(entries[0].offset, 0);
    assert_eq!(entries[0].kind, FileType::RegularFile);
    assert_eq!(entries[0].name, b".".to_vec());
    assert_eq!(entries[1].ino, 2);
    assert_eq!(entries[1].offset, 1);
    assert_eq!(entries[1].kind, FileType::RegularFile);
    assert_eq!(entries[1].name, b"..".to_vec());
}

#[test]
fn readdir_keeps_entries_before_a_server_error() {
    let (entries, end) = decode_readdir(b"Add 5 1 1 sub Err 13");
    assert_eq!(entries.len(), 1);
    assert_eq!(entries[0].ino, 5);
    assert_eq!(entries[0].offset, 1);
    assert_eq!(entries[0].kind, FileType::Directory);
    assert_eq!(entries[0].name, b"sub".to_vec());
    assert_eq!(end, Err(Failure::Server(13)));
}

#[test]
fn readdir_keeps_entries_before_a_malformed_record() {
    let (entries, end) = decode_readdir(b"Add 1 0 0 a Add 2 1 7 b Ok");
    assert_eq!(entries.len(), 1);
    assert_eq!(entries[0].name, b"a".to_vec());
    assert_eq!(end, Err(Failure::Malformed));
    let (entries, end) = decode_readdir(b"Add 1 0 0 a Add 2 1");
    assert_eq!(entries.len(), 1);
    assert_eq!(end, Err(Failure::Malformed));
}

#[test]
fn readdir_edge_cases() {
    assert_eq!(decode_readdir(b"Ok"), (Vec::new(), Ok(())));
    assert_eq!(decode_readdir(b"Add 1 0 0"), (Vec::new(), Err(Failure::Malformed)));
    let (entries, end) = decode_readdir(b"Add 1 0 0 .");
    assert_eq!(entries.len(), 1);
    assert_eq!(end, Err(Failure::Malformed));
    assert_eq!(decode_readdir(b"Add 1 0 7 . Ok"), (Vec::new(), Err(Failure::Malformed)));
    assert_eq!(decode_readdir(b"Nope"), (Vec::new(), Err(Failure::Malformed)));
    assert_eq!(decode_readdir(b""), (Vec::new(), Err(Failure::Malformed)));
}

#[test]
fn attr_reply_one_field_short_is_malformed() {
    let short = b"Ok 100 0 42 4096 8 100 0 100 0 100 0 100 0 1 755 1 1000 1000 0";
    assert_eq!(decode_attr(short), Err(Failure::Malformed));
    assert_eq!(decode_attr(b"Ok"), Err(Failure::Malformed));
}

#[test]
fn attr_reply_rejects_bad_fields() {
    // kind 2 is no kind
    let kind = b"Ok 1 0 42 0 0 0 0 0 0 0 0 0 0 2 420 1 0 0 0 0";
    assert_eq!(decode_attr(kind), Err(Failure::Malformed));
    // nanoseconds of a full second
    let nsec = b"Ok 1 1000000000 42 0 0 0 0 0 0 0 0 0 0 0 420 1 0 0 0 0";
    assert_eq!(decode_attr(nsec), Err(Failure::Malformed));
    // permissions beyond 16 bits
    let perm = b"Ok 1 0 42 0 0 0 0 0 0 0 0 0 0 0 70000 1 0 0 0 0";
    assert_eq!(decode_attr(perm), Err(Failure::Malformed));
    // a word where a number belongs
    let word = b"Ok 1 0 x 0 0 0 0 0 0 0 0 0 0 0 420 1 0 0 0 0";
    assert_eq!(decode_attr(word), Err(Failure::Malformed));
    let ok = b"Ok 1 0 42 0 0 -5 3 0 0 0 0 0 0 0 420 1 0 0 0 0";
    let r = decode_attr(ok).unwrap();
    assert_eq!(r.attr.kind, FileType::RegularFile);
    assert_eq!(r.attr.atime, Timespec { sec: -5, nsec: 3 });
}

#[test]
fn entry_and_create_replies_decode() {
    let entry = b"Ok 1 2 9 10 1 0 0 0 0 0 0 0 0 0 644 1 5 6 0 0 77";
    let e = decode_entry(entry).unwrap();
    assert_eq!(e.ttl, Timespec { sec: 1, nsec: 2 });
    assert_eq!(e.attr.ino, 9);
    assert_eq!(e.attr.perm, 644);
    assert_eq!(e.generation, 77);
    assert_eq!(decode_entry(b"Ok 1 2 9 10 1 0 0 0 0 0 0 0 0 0 644 1 5 6 0 0"), Err(Failure::Malformed));
    let create = b"Ok 1 2 9 10 1 0 0 0 0 0 0 0 0 0 644 1 5 6 0 0 77 3 32768";
    let c = decode_create(create).unwrap();
    assert_eq!(c.generation, 77);
    assert_eq!(c.fh, 3);
    assert_eq!(c.flags, 32768);
    assert_eq!(decode_create(entry), Err(Failure::Malformed));
}

#[test]
fn open_statfs_written_empty_replies_decode() {
    let o = decode_open(b"Ok 12 2").unwrap();
    assert_eq!((o.fh, o.flags), (12, 2));
    assert_eq!(decode_open(b"Ok 12"), Err(Failure::Malformed));
    let s = decode_statfs(b"Ok 1000 900 800 200 150 512 255 512").unwrap();
    assert_eq!((s.blocks, s.bfree, s.bavail, s.files, s.ffree), (1000, 900, 800, 200, 150));
    assert_eq!((s.bsize, s.namelen, s.frsize), (512, 255, 512));
    assert_eq!(decode_statfs(b"Ok 1000 900 800 200 150 512 255"), Err(Failure::Malformed));
    assert_eq!(decode_written(b"Ok 4000"), Ok(4000));
    assert_eq!(decode_written(b"Ok -1"), Err(Failure::Malformed));
    assert_eq!(decode_empty(b"Ok"), Ok(()));
    assert_eq!(decode_empty(b"Err"), Err(Failure::Malformed));
    assert_eq!(decode_empty(b"Err x"), Err(Failure::Malformed));
    assert_eq!(decode_empty(b"Err -13"), Err(Failure::Server(-13)));
    assert_eq!(decode_empty(b"Huh 1"), Err(Failure::Malformed));
}

#[test]
fn failures_map_to_posix_numbers() {
    assert_eq!(Failure::Io.errno(), 5);
    assert_eq!(Failure::Malformed.errno(), 22);
    assert_eq!(Failure::Server(13).errno(), 13);
}

#[test]
fn request_lines() {
    assert_eq!(encode_lookup(1, b"a.txt"), b"lookup 1 a.txt".to_vec());
    assert_eq!(encode_getattr(42), b"getattr 42".to_vec());
    assert_eq!(encode_setattr(3, Some(100)), b"setattr 3 100".to_vec());
    assert_eq!(encode_setattr(3, None), b"setattr 3 None".to_vec());
    assert_eq!(encode_create(1, b"f"), b"create 1 f".to_vec());
    assert_eq!(encode_mkdir(1, b"d"), b"mkdir 1 d".to_vec());
    assert_eq!(encode_open(5, 32770), b"open 5 32770".to_vec());
    assert_eq!(encode_opendir(1), b"opendir 1".to_vec());
    assert_eq!(encode_write(5, 10, b"abc"), b"write 5 10 abc".to_vec());
    assert_eq!(encode_readdir(1, 0), b"readdir 1 0".to_vec());
    assert_eq!(encode_rmdir(1, b"d"), b"rmdir 1 d".to_vec());
    assert_eq!(encode_unlink(1, b"f"), b"unlink 1 f".to_vec());
    assert_eq!(encode_rename(1, b"a", 2, b"b", 0), b"rename 1 a 2 b 0".to_vec());
    assert_eq!(encode_symlink(1, b"ln", b"/t"), b"symlink 1 ln /t".to_vec());
    assert_eq!(encode_readlink(8), b"readlink 8".to_vec());
    assert_eq!(encode_fsync(), b"fsync".to_vec());
    assert_eq!(encode_fsyncdir(), b"fsyncdir".to_vec());
    assert_eq!(encode_statfs(), b"statfs".to_vec());
    assert_eq!(encode_exit(), b"exit".to_vec());
    assert_eq!(RESPONSE_CAPACITY, 4096);
}
