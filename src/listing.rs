use vstd::prelude::*;

use crate::attr::{DirEntry, FileType};
use crate::errno::Failure;
use crate::response::{
    field_i64, field_kind, field_u64, i64_field, is_add, is_err, is_ok, kind_field, refusal,
    refusal_at, tag_add, tag_err, tag_ok, u64_field, DIRENT_TOKENS,
};
use crate::wire::{span_token, split_spaces, split_tokens, token_bytes};

verus! {

/// A directory entry as values: inode, offset, kind and name.
pub type EntryView = (u64, i64, FileType, Seq<u8>);

/// The entry of the `Add` record at token `k`: inode, offset, kind and name in
/// the four tokens after the tag.
pub open spec fn entry_at(t: Seq<Seq<u8>>, k: int) -> Option<EntryView> {
    match (u64_field(t[k + 1]), i64_field(t[k + 2]), kind_field(t[k + 3])) {
        (Some(ino), Some(offset), Some(kind)) => Some((ino, offset, kind, t[k + 4])),
        _ => None,
    }
}

/// The listing that starts at token `k`: the entries of the `Add` records, each
/// of five tokens, in order, and how the listing ends. A terminal `Ok` record
/// ends it well and an `Err` record with the server's code; a record with
/// another tag, too few tokens or a bad field, and a listing without its
/// terminal record, end it as malformed. The entries before the end are kept
/// whichever way it ends.
pub open spec fn listing_from(t: Seq<Seq<u8>>, k: int) -> (Seq<EntryView>, Result<(), Failure>)
    decreases t.len() - k,
{
    if k < 0 || k >= t.len() {
        (Seq::empty(), Err(Failure::Malformed))
    } else if t[k] == tag_add() {
        if t.len() - k < DIRENT_TOKENS {
            (Seq::empty(), Err(Failure::Malformed))
        } else {
            match entry_at(t, k) {
                Some(e) => {
                    let rest = listing_from(t, k + DIRENT_TOKENS);
                    (seq![e] + rest.0, rest.1)
                },
                None => (Seq::empty(), Err(Failure::Malformed)),
            }
        }
    } else if t[k] == tag_ok() {
        (Seq::empty(), Ok(()))
    } else if t[k] == tag_err() {
        (Seq::empty(), Err(refusal_at(t, k)))
    } else {
        (Seq::empty(), Err(Failure::Malformed))
    }
}

/// The entries of a readdir reply, and how the listing ends.
pub open spec fn readdir_response(s: Seq<u8>) -> (Seq<EntryView>, Result<(), Failure>) {
    listing_from(split_spaces(s), 0)
}

pub open spec fn entries_view(v: Seq<DirEntry>) -> Seq<EntryView> {
    v.map_values(|e: DirEntry| e@)
}

/// Decodes the reply to readdir: the entries in the order they came, up to the
/// record that ends the listing, and how it ends. Entries decoded before an
/// `Err` or a malformed record are handed back as well, to be delivered before
/// the failure is reported.
pub fn decode_readdir(resp: &[u8]) -> (r: (Vec<DirEntry>, Result<(), Failure>))
    ensures
        entries_view(r.0@) == readdir_response(resp@).0,
        r.1 == readdir_response(resp@).1,
{
    let spans = split_tokens(resp);
    let ghost t = split_spaces(resp@);
    let mut entries: Vec<DirEntry> = Vec::new();
    let mut k: usize = 0;
    proof {
        assert(entries_view(entries@) + listing_from(t, 0).0 =~= listing_from(t, 0).0);
    }
    loop
        invariant
            crate::wire::spans_of(resp@, spans@),
            t == split_spaces(resp@),
            k <= spans@.len(),
            listing_from(t, 0).0 == entries_view(entries@) + listing_from(t, k as int).0,
            listing_from(t, 0).1 == listing_from(t, k as int).1,
        decreases spans@.len() - k,
    {
        let ghost done = entries_view(entries@);
        proof {
            assert(done + Seq::<EntryView>::empty() =~= done);
        }
        if k >= spans.len() {
            return (entries, Err(Failure::Malformed));
        }
        assert(span_token(resp@, spans@[k as int]) == t[k as int]);
        if is_add(resp, spans[k]) {
            if spans.len() - k < DIRENT_TOKENS {
                return (entries, Err(Failure::Malformed));
            }
            let ino = field_u64(resp, &spans, k + 1);
            let offset = field_i64(resp, &spans, k + 2);
            let kind = field_kind(resp, &spans, k + 3);
            match (ino, offset, kind) {
                (Some(ino), Some(offset), Some(kind)) => {
                    assert(span_token(resp@, spans@[k + 4]) == t[k + 4]);
                    let name = token_bytes(resp, spans[k + 4]);
                    let ghost before = entries@;
                    let entry = DirEntry { ino, offset, kind, name };
                    entries.push(entry);
                    proof {
                        let e = (ino, offset, kind, t[k + 4]);
                        assert(entry_at(t, k as int) == Some(e));
                        assert(entries_view(entries@) =~= entries_view(before).push(e));
                        let rest = listing_from(t, k + DIRENT_TOKENS);
                        assert(entries_view(before) + (seq![e] + rest.0) =~= entries_view(
                            entries@,
                        ) + rest.0);
                    }
                    k = k + DIRENT_TOKENS;
                },
                _ => {
                    return (entries, Err(Failure::Malformed));
                },
            }
        } else if is_ok(resp, spans[k]) {
            return (entries, Ok(()));
        } else if is_err(resp, spans[k]) {
            let f = refusal(resp, &spans, k);
            return (entries, Err(f));
        } else {
            return (entries, Err(Failure::Malformed));
        }
    }
}

} // verus!
