//! Cutting a finished archive into the pieces that the split writer takes:
//! local headers, descriptors and directory records whole, entry data free.
use crate::split::{flat, lemma_flat_push, piece_seqs, piece_start, vol_start, volumes_ok, Piece};
use vstd::prelude::*;

verus! {

/// Length of the local header at `off`: fixed part, name, extra field.
pub open spec fn local_header_len(a: Seq<u8>, off: int) -> int {
    30 + crate::le::get_u16(a, off + 26) + crate::le::get_u16(a, off + 28)
}

fn push_piece(ps: &mut Vec<Piece>, a: &[u8], from: usize, to: usize, splittable: bool)
    requires
        from <= to <= a@.len(),
    ensures
        piece_seqs(final(ps)@) == piece_seqs(old(ps)@).push(a@.subrange(from as int, to as int)),
        final(ps)@.len() == old(ps)@.len() + 1,
        forall|k: int| 0 <= k < old(ps)@.len() ==> final(ps)@[k] == old(ps)@[k],
        final(ps)@.last().splittable == splittable,
        final(ps)@.last().bytes@ == a@.subrange(from as int, to as int),
{
    let bytes = crate::le::copy_range(a, from, to);
    ps.push(Piece { bytes, splittable });
    assert(piece_seqs(ps@) =~= piece_seqs(old(ps)@).push(a@.subrange(from as int, to as int)));
}

proof fn lemma_start_stable(ps: Seq<Piece>, qs: Seq<Piece>, k: int)
    requires
        0 <= k <= ps.len() <= qs.len(),
        forall|j: int| 0 <= j < ps.len() ==> qs[j] == ps[j],
    ensures
        piece_start(qs, k) == piece_start(ps, k),
{
    assert(piece_seqs(qs).subrange(0, k) =~= piece_seqs(ps).subrange(0, k));
}


/// The pieces at `idx` are the local headers of the first `m` headers:
/// whole, at the header's offset, of the header's length.
pub open spec fn headers_at(a: Seq<u8>, hs: Seq<crate::zip::CentralDirectoryHeader>, ps: Seq<Piece>, idx: Seq<usize>, m: int) -> bool {
    &&& idx.len() == m
    &&& forall|j: int|
        0 <= j < m ==> {
            &&& (#[trigger] idx[j]) < ps.len()
            &&& !ps[idx[j] as int].splittable
            &&& piece_start(ps, idx[j] as int) == hs[j].offset_spec()
            &&& ps[idx[j] as int].bytes@.len() == local_header_len(a, hs[j].offset_spec() as int)
        }
}

proof fn lemma_headers_grow(
    a: Seq<u8>,
    hs: Seq<crate::zip::CentralDirectoryHeader>,
    ps: Seq<Piece>,
    qs: Seq<Piece>,
    idx: Seq<usize>,
    m: int,
)
    requires
        headers_at(a, hs, ps, idx, m),
        ps.len() <= qs.len(),
        forall|j: int| 0 <= j < ps.len() ==> qs[j] == ps[j],
    ensures
        headers_at(a, hs, qs, idx, m),
{
    assert forall|j: int| 0 <= j < m implies {
        &&& (#[trigger] idx[j]) < qs.len()
        &&& !qs[idx[j] as int].splittable
        &&& piece_start(qs, idx[j] as int) == hs[j].offset_spec()
        &&& qs[idx[j] as int].bytes@.len() == local_header_len(a, hs[j].offset_spec() as int)
    } by {
        lemma_start_stable(ps, qs, idx[j] as int);
        assert(qs[idx[j] as int] == ps[idx[j] as int]);
    }
}

/// Whether the local records of `hs[i..]` follow one another from `pos`:
/// each header's offset is where the previous record ended, and its local
/// record (header, data, descriptor) is whole.
pub open spec fn records_chain(a: Seq<u8>, hs: Seq<crate::zip::CentralDirectoryHeader>, i: int, pos: int) -> bool
    decreases hs.len() - i,
{
    if i < 0 || i >= hs.len() {
        true
    } else {
        hs[i].offset_spec() == pos && match crate::reader::local_record_range(a, hs[i]) {
            Some((s, t)) => s == pos && records_chain(a, hs, i + 1, t),
            None => false,
        }
    }
}

/// The pieces of an archive whose local records follow one another from
/// its start in the order of `hs`: each local header and each data
/// descriptor whole, each entry's data splittable, then each central
/// directory record whole and the end records whole. With the pieces comes,
/// for each header, the index of the piece that holds its local header.
/// `None` when the records do not line up so.
pub fn archive_pieces(a: &[u8], hs: &Vec<crate::zip::CentralDirectoryHeader>) -> (r: Option<(Vec<Piece>, Vec<usize>)>)
    ensures
        r is Some <==> records_chain(a@, hs@, 0, 0),
        r matches Some((ps, idx)) ==> {
            &&& flat(piece_seqs(ps@)) == a@
            &&& headers_at(a@, hs@, ps@, idx@, hs@.len() as int)
        },
{
    let len = a.len();
    let mut ps: Vec<Piece> = Vec::new();
    let mut idx: Vec<usize> = Vec::new();
    let mut pos: usize = 0;
    let mut i: usize = 0;
    assert(piece_seqs(ps@) =~= Seq::<Seq<u8>>::empty());
    assert(a@.subrange(0, 0) =~= Seq::<u8>::empty());
    while i < hs.len()
        invariant
            0 <= i <= hs@.len(),
            pos <= len,
            len == a@.len(),
            flat(piece_seqs(ps@)) == a@.subrange(0, pos as int),
            headers_at(a@, hs@, ps@, idx@, i as int),
            records_chain(a@, hs@, 0, 0) == records_chain(a@, hs@, i as int, pos as int),
        decreases hs@.len() - i,
    {
        let h = &hs[i];
        if h.get_local_header_offset() != pos as u64 {
            return None;
        }
        let (_s, t) = match crate::reader::local_record_span(a, h) {
            Some(x) => x,
            None => {
                return None;
            },
        };
        let n = crate::le::read_u16(a, pos + 26) as usize;
        let e = crate::le::read_u16(a, pos + 28) as usize;
        let header_end = pos + 30 + n + e;
        let data_end = header_end + h.get_compressed_size() as usize;
        let ghost before = ps@;
        proof {
            lemma_flat_push(piece_seqs(ps@), a@.subrange(pos as int, header_end as int));
            assert(a@.subrange(0, pos as int) + a@.subrange(pos as int, header_end as int) =~= a@.subrange(0, header_end as int));
        }
        let hk = ps.len();
        push_piece(&mut ps, a, pos, header_end, false);
        proof {
            assert(piece_seqs(ps@).subrange(0, hk as int) =~= piece_seqs(before));
            lemma_headers_grow(a@, hs@, before, ps@, idx@, i as int);
        }
        let ghost idx0 = idx@;
        idx.push(hk);
        proof {
            assert forall|j: int| 0 <= j < i + 1 implies {
                &&& (#[trigger] idx@[j]) < ps@.len()
                &&& !ps@[idx@[j] as int].splittable
                &&& piece_start(ps@, idx@[j] as int) == hs@[j].offset_spec()
                &&& ps@[idx@[j] as int].bytes@.len() == local_header_len(a@, hs@[j].offset_spec() as int)
            } by {
                if j < i {
                    assert(idx@[j] == idx0[j]);
                }
            }
        }
        let ghost mid = ps@;
        proof {
            lemma_flat_push(piece_seqs(ps@), a@.subrange(header_end as int, data_end as int));
            assert(a@.subrange(0, header_end as int) + a@.subrange(header_end as int, data_end as int) =~= a@.subrange(0, data_end as int));
        }
        push_piece(&mut ps, a, header_end, data_end, true);
        if t > data_end {
            proof {
                lemma_flat_push(piece_seqs(ps@), a@.subrange(data_end as int, t as int));
                assert(a@.subrange(0, data_end as int) + a@.subrange(data_end as int, t as int) =~= a@.subrange(0, t as int));
            }
            push_piece(&mut ps, a, data_end, t, false);
        }
        proof {
            lemma_headers_grow(a@, hs@, mid, ps@, idx@, i + 1);
        }
        pos = t;
        i = i + 1;
    }
    loop
        invariant
            pos <= len,
            len == a@.len(),
            flat(piece_seqs(ps@)) == a@.subrange(0, pos as int),
            headers_at(a@, hs@, ps@, idx@, hs@.len() as int),
        decreases len - pos,
    {
        let next = match crate::reader::read_central_header(a, pos) {
            Some((_, next)) => next,
            None => {
                break;
            },
        };
        let ghost before = ps@;
        proof {
            lemma_flat_push(piece_seqs(ps@), a@.subrange(pos as int, next as int));
            assert(a@.subrange(0, pos as int) + a@.subrange(pos as int, next as int) =~= a@.subrange(0, next as int));
        }
        push_piece(&mut ps, a, pos, next, false);
        proof {
            lemma_headers_grow(a@, hs@, before, ps@, idx@, hs@.len() as int);
        }
        pos = next;
    }
    if pos < len {
        let ghost before = ps@;
        proof {
            lemma_flat_push(piece_seqs(ps@), a@.subrange(pos as int, len as int));
            assert(a@.subrange(0, pos as int) + a@.subrange(pos as int, len as int) =~= a@.subrange(0, len as int));
        }
        push_piece(&mut ps, a, pos, len, false);
        proof {
            lemma_headers_grow(a@, hs@, before, ps@, idx@, hs@.len() as int);
        }
    }
    assert(a@.subrange(0, len as int) =~= a@);
    Some((ps, idx))
}

} // verus!

verus! {

/// Split boundary: when an archive is cut into its pieces and the pieces
/// into volumes of at most `size` bytes, the volumes concatenate back to
/// the archive, none is longer than `size`, and no local header straddles
/// two volumes.
pub proof fn lemma_split_boundary(
    a: Seq<u8>,
    hs: Seq<crate::zip::CentralDirectoryHeader>,
    ps: Seq<Piece>,
    idx: Seq<usize>,
    vs: Seq<Seq<u8>>,
    size: nat,
)
    requires
        flat(piece_seqs(ps)) == a,
        headers_at(a, hs, ps, idx, hs.len() as int),
        volumes_ok(vs, ps, size),
    ensures
        flat(vs) == a,
        forall|v: int| 0 <= v < vs.len() ==> (#[trigger] vs[v]).len() <= size,
        forall|i: int|
            #![trigger hs[i]]
            0 <= i < hs.len() ==> exists|v: int|
                #![trigger vs[v]]
                0 <= v < vs.len() && vol_start(vs, v) <= hs[i].offset_spec() && hs[i].offset_spec()
                    + local_header_len(a, hs[i].offset_spec() as int) <= vol_start(vs, v) + vs[v].len(),
{
    assert forall|i: int| #![trigger hs[i]] 0 <= i < hs.len() implies exists|v: int|
        #![trigger vs[v]]
        0 <= v < vs.len() && vol_start(vs, v) <= hs[i].offset_spec() && hs[i].offset_spec()
            + local_header_len(a, hs[i].offset_spec() as int) <= vol_start(vs, v) + vs[v].len() by {
        let k = idx[i] as int;
        assert(0 <= k < ps.len() && !ps[k].splittable);
        let v = choose|v: int|
            0 <= v < vs.len() && vol_start(vs, v) <= piece_start(ps, k) && piece_start(ps, k) + ps[k].bytes@.len()
                <= vol_start(vs, v) + vs[v].len();
        assert(vol_start(vs, v) + vs[v].len() >= piece_start(ps, k) + ps[k].bytes@.len());
    }
}

} // verus!

verus! {

/// Like `records_chain`, and the last record ends at `end`.
pub open spec fn chain_to(a: Seq<u8>, hs: Seq<crate::zip::CentralDirectoryHeader>, i: int, pos: int, end: int) -> bool
    decreases hs.len() - i,
{
    if i < 0 || i >= hs.len() {
        pos == end
    } else {
        hs[i].offset_spec() == pos && match crate::reader::local_record_range(a, hs[i]) {
            Some((s, t)) => s == pos && chain_to(a, hs, i + 1, t, end),
            None => false,
        }
    }
}

pub proof fn lemma_chain_to_records(a: Seq<u8>, hs: Seq<crate::zip::CentralDirectoryHeader>, i: int, pos: int, end: int)
    requires
        0 <= i,
        chain_to(a, hs, i, pos, end),
    ensures
        records_chain(a, hs, i, pos),
    decreases hs.len() - i,
{
    if i < hs.len() {
        let (s, t) = crate::reader::local_record_range(a, hs[i]).unwrap();
        lemma_chain_to_records(a, hs, i + 1, t, end);
    }
}

/// A whole local record keeps its span when bytes are appended.
proof fn lemma_range_append(a: Seq<u8>, b: Seq<u8>, h: crate::zip::CentralDirectoryHeader)
    requires
        crate::reader::local_record_range(a, h) is Some,
    ensures
        crate::reader::local_record_range(a + b, h) == crate::reader::local_record_range(a, h),
{
    let off = h.offset_spec() as int;
    let ab = a + b;
    assert(Seq::<u8>::empty() + a + b =~= ab);
    crate::le::lemma_get_shift_short(Seq::empty(), a, b, off);
    crate::le::lemma_get_shift_short(Seq::empty(), a, b, off + 26);
    crate::le::lemma_get_shift_u16(Seq::empty(), a, b, off + 28);
    let (ds, de) = crate::reader::local_data_range(a, off, h.compressed_spec() as int).unwrap();
    assert(crate::reader::local_data_range(ab, off, h.compressed_spec() as int) == Some((ds, de)));
    if h.flags & 8 != 0 {
        if de + 4 <= a.len() {
            crate::le::lemma_get_shift_short(Seq::empty(), a, b, de);
        }
    }
}

pub proof fn lemma_chain_append(a: Seq<u8>, b: Seq<u8>, hs: Seq<crate::zip::CentralDirectoryHeader>, i: int, pos: int, end: int)
    requires
        0 <= i,
        chain_to(a, hs, i, pos, end),
    ensures
        chain_to(a + b, hs, i, pos, end),
    decreases hs.len() - i,
{
    if i < hs.len() {
        lemma_range_append(a, b, hs[i]);
        let (s, t) = crate::reader::local_record_range(a, hs[i]).unwrap();
        lemma_chain_append(a, b, hs, i + 1, t, end);
    }
}

pub proof fn lemma_chain_push(
    a: Seq<u8>,
    hs: Seq<crate::zip::CentralDirectoryHeader>,
    h: crate::zip::CentralDirectoryHeader,
    i: int,
    pos: int,
    end: int,
    t: int,
)
    requires
        0 <= i <= hs.len(),
        chain_to(a, hs, i, pos, end),
        h.offset_spec() == end,
        crate::reader::local_record_range(a, h) == Some((end, t)),
    ensures
        chain_to(a, hs.push(h), i, pos, t),
    decreases hs.len() - i,
{
    if i < hs.len() {
        assert(hs.push(h)[i] == hs[i]);
        let (s, t0) = crate::reader::local_record_range(a, hs[i]).unwrap();
        lemma_chain_push(a, hs, h, i + 1, t0, end, t);
    } else {
        assert(hs.push(h)[i] == h);
        assert(chain_to(a, hs.push(h), i + 1, t, t));
    }
}

} // verus!
