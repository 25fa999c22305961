//! Split volumes: cuts an archive's byte stream into volumes of at most a
//! given size, never cutting a record that must stay whole (local headers,
//! data descriptors, central directory records) and cutting payload freely.
use crate::le::push_bytes;
use vstd::prelude::*;

verus! {

/// A run of archive bytes; a record that may not straddle volumes is not
/// splittable.
#[derive(Debug, Clone)]
pub struct Piece {
    pub bytes: Vec<u8>,
    pub splittable: bool,
}

/// The concatenation of byte sequences.
pub open spec fn flat(s: Seq<Seq<u8>>) -> Seq<u8>
    decreases s.len(),
{
    if s.len() == 0 {
        Seq::empty()
    } else {
        flat(s.drop_last()) + s.last()
    }
}

pub open spec fn vol_seqs(vols: Seq<Vec<u8>>) -> Seq<Seq<u8>> {
    vols.map_values(|v: Vec<u8>| v@)
}

pub open spec fn piece_seqs(pieces: Seq<Piece>) -> Seq<Seq<u8>> {
    pieces.map_values(|p: Piece| p.bytes@)
}

/// Where piece `j` starts in the stream.
pub open spec fn piece_start(pieces: Seq<Piece>, j: int) -> int {
    flat(piece_seqs(pieces).subrange(0, j)).len() as int
}

/// Where volume `v` starts in the stream.
pub open spec fn vol_start(vs: Seq<Seq<u8>>, v: int) -> int {
    flat(vs.subrange(0, v)).len() as int
}

/// Whether some whole record is longer than a volume.
pub open spec fn oversized(pieces: Seq<Piece>, size: usize) -> bool {
    exists|j: int| 0 <= j < pieces.len() && !(#[trigger] pieces[j]).splittable && pieces[j].bytes@.len() > size
}

pub proof fn lemma_flat_push(s: Seq<Seq<u8>>, x: Seq<u8>)
    ensures
        flat(s.push(x)) == flat(s) + x,
{
    assert(s.push(x).drop_last() =~= s);
}

proof fn lemma_prefix_push<T>(s: Seq<T>, x: T, v: int)
    requires
        0 <= v <= s.len(),
    ensures
        s.push(x).subrange(0, v) == s.subrange(0, v),
{
    assert(s.push(x).subrange(0, v) =~= s.subrange(0, v));
}

/// Every whole record processed so far lies inside one volume: a closed one,
/// or the open one when its index is the number of closed volumes.
pub open spec fn placed(vs: Seq<Seq<u8>>, cur: Seq<u8>, pieces: Seq<Piece>, place: Seq<int>, k: int) -> bool {
    forall|j: int|
        0 <= j < k && !(#[trigger] pieces[j]).splittable ==> {
            let v = place[j];
            &&& 0 <= v <= vs.len()
            &&& vol_start(vs, v) <= piece_start(pieces, j)
            &&& piece_start(pieces, j) + pieces[j].bytes@.len() <= vol_start(vs, v) + if v < vs.len() {
                vs[v].len() as int
            } else {
                cur.len() as int
            }
        }
}

proof fn lemma_placed_close(vs: Seq<Seq<u8>>, cur: Seq<u8>, pieces: Seq<Piece>, place: Seq<int>, k: int)
    requires
        placed(vs, cur, pieces, place, k),
    ensures
        placed(vs.push(cur), Seq::empty(), pieces, place, k),
        vol_start(vs.push(cur), vs.len() as int + 1) == flat(vs).len() + cur.len(),
{
    let nv = vs.push(cur);
    assert forall|j: int| 0 <= j < k && !(#[trigger] pieces[j]).splittable implies {
        let v = place[j];
        &&& 0 <= v <= nv.len()
        &&& vol_start(nv, v) <= piece_start(pieces, j)
        &&& piece_start(pieces, j) + pieces[j].bytes@.len() <= vol_start(nv, v) + if v < nv.len() {
            nv[v].len() as int
        } else {
            0int
        }
    } by {
        let v = place[j];
        lemma_prefix_push(vs, cur, v);
    }
    assert(nv.subrange(0, nv.len() as int) =~= nv);
    lemma_flat_push(vs, cur);
}

proof fn lemma_vol_seqs_push(vols: Seq<Vec<u8>>, x: Vec<u8>)
    ensures
        vol_seqs(vols.push(x)) == vol_seqs(vols).push(x@),
{
    assert(vol_seqs(vols.push(x)) =~= vol_seqs(vols).push(x@));
}

proof fn lemma_placed_extend(vs: Seq<Seq<u8>>, cur: Seq<u8>, more: Seq<u8>, pieces: Seq<Piece>, place: Seq<int>, k: int)
    requires
        placed(vs, cur, pieces, place, k),
    ensures
        placed(vs, cur + more, pieces, place, k),
{
}

proof fn lemma_placed_next(vs: Seq<Seq<u8>>, cur: Seq<u8>, pieces: Seq<Piece>, place: Seq<int>, k: int, v: int)
    requires
        placed(vs, cur, pieces, place, k),
        place.len() == k,
        0 <= k < pieces.len(),
        pieces[k].splittable ==> v == -1,
        !pieces[k].splittable ==> v == vs.len() && flat(vs) + cur == flat(piece_seqs(pieces).subrange(0, k + 1))
            && cur.len() >= pieces[k].bytes@.len(),
    ensures
        placed(vs, cur, pieces, place.push(v), k + 1),
{
    let np = place.push(v);
    assert forall|j: int| 0 <= j < k + 1 && !(#[trigger] pieces[j]).splittable implies {
        let w = np[j];
        &&& 0 <= w <= vs.len()
        &&& vol_start(vs, w) <= piece_start(pieces, j)
        &&& piece_start(pieces, j) + pieces[j].bytes@.len() <= vol_start(vs, w) + if w < vs.len() {
            vs[w].len() as int
        } else {
            cur.len() as int
        }
    } by {
        if j == k {
            let ps = piece_seqs(pieces);
            assert(np[k] == v);
            assert(vs.subrange(0, vs.len() as int) =~= vs);
            assert(ps.subrange(0, k + 1) =~= ps.subrange(0, k).push(ps[k]));
            lemma_flat_push(ps.subrange(0, k), ps[k]);
            assert(ps[k] == pieces[k].bytes@);
            assert(flat(ps.subrange(0, k + 1)).len() == flat(ps.subrange(0, k)).len() + ps[k].len());
        } else {
            assert(np[j] == place[j]);
        }
    }
}

/// The volumes hold the pieces' stream in order, none is longer than
/// `size`, and every piece that is not splittable lies inside one volume.
pub open spec fn volumes_ok(vs: Seq<Seq<u8>>, pieces: Seq<Piece>, size: nat) -> bool {
    &&& flat(vs) == flat(piece_seqs(pieces))
    &&& forall|v: int| 0 <= v < vs.len() ==> (#[trigger] vs[v]).len() <= size
    &&& forall|j: int|
        0 <= j < pieces.len() && !(#[trigger] pieces[j]).splittable ==> exists|v: int|
            0 <= v < vs.len() && vol_start(vs, v) <= piece_start(pieces, j) && piece_start(pieces, j)
                + pieces[j].bytes@.len() <= vol_start(vs, v) + vs[v].len()
}

/// Cuts the stream of `pieces` into volumes of at most `size` bytes. A whole
/// record that does not fit in what is left of the current volume starts a
/// new one; payload fills each volume to the brim. `None` when a whole
/// record is longer than a volume.
#[verifier::rlimit(80)]
pub fn split_volumes(pieces: &Vec<Piece>, size: usize) -> (r: Option<Vec<Vec<u8>>>)
    requires
        size > 0,
    ensures
        r is None <==> oversized(pieces@, size),
        r matches Some(vols) ==> volumes_ok(vol_seqs(vols@), pieces@, size as nat),
{
    let mut vols: Vec<Vec<u8>> = Vec::new();
    let mut cur: Vec<u8> = Vec::new();
    let ghost mut place: Seq<int> = Seq::empty();
    let n = pieces.len();
    let mut k: usize = 0;
    assert(vol_seqs(vols@) =~= Seq::<Seq<u8>>::empty());
    assert(piece_seqs(pieces@).subrange(0, 0) =~= Seq::<Seq<u8>>::empty());
    while k < n
        invariant
            0 <= k <= n,
            n == pieces@.len(),
            size > 0,
            flat(vol_seqs(vols@)) + cur@ == flat(piece_seqs(pieces@).subrange(0, k as int)),
            forall|v: int| 0 <= v < vols@.len() ==> (#[trigger] vols@[v])@.len() <= size,
            cur@.len() <= size,
            place.len() == k,
            placed(vol_seqs(vols@), cur@, pieces@, place, k as int),
            forall|j: int| 0 <= j < k && !(#[trigger] pieces@[j]).splittable ==> pieces@[j].bytes@.len() <= size,
        decreases n - k,
    {
        let ghost ps = piece_seqs(pieces@);
        proof {
            assert(ps.subrange(0, k + 1) =~= ps.subrange(0, k as int).push(ps[k as int]));
            lemma_flat_push(ps.subrange(0, k as int), ps[k as int]);
        }
        let p = &pieces[k];
        if !p.splittable {
            if p.bytes.len() > size {
                return None;
            }
            if p.bytes.len() > size - cur.len() {
                let ghost before = vols@;
                proof {
                    lemma_placed_close(vol_seqs(vols@), cur@, pieces@, place, k as int);
                    lemma_flat_push(vol_seqs(vols@), cur@);
                }
                let full = cur;
                vols.push(full);
                cur = Vec::new();
                proof {
                    lemma_vol_seqs_push(before, full);
                    assert(cur@ =~= Seq::<u8>::empty());
                    assert(flat(vol_seqs(vols@)) + cur@ =~= flat(vol_seqs(vols@)));
                }
            }
            let ghost v = vols@.len() as int;
            let ghost cur0 = cur@;
            push_bytes(&mut cur, p.bytes.as_slice());
            proof {
                lemma_placed_extend(vol_seqs(vols@), cur0, p.bytes@, pieces@, place, k as int);
                assert(flat(vol_seqs(vols@)) + cur@ =~= flat(vol_seqs(vols@)) + cur0 + p.bytes@);
                lemma_placed_next(vol_seqs(vols@), cur@, pieces@, place, k as int, v);
                place = place.push(v);
            }
        } else {
            let mut i: usize = 0;
            while i < p.bytes.len()
                invariant
                    0 <= i <= p.bytes@.len(),
                    flat(vol_seqs(vols@)) + cur@ == flat(piece_seqs(pieces@).subrange(0, k as int)) + p.bytes@.subrange(0, i as int),
                    forall|v: int| 0 <= v < vols@.len() ==> (#[trigger] vols@[v])@.len() <= size,
                    cur@.len() <= size,
                    size > 0,
                    placed(vol_seqs(vols@), cur@, pieces@, place, k as int),
                decreases p.bytes@.len() - i,
            {
                if cur.len() == size {
                    let ghost before = vols@;
                    proof {
                        lemma_placed_close(vol_seqs(vols@), cur@, pieces@, place, k as int);
                        lemma_flat_push(vol_seqs(vols@), cur@);
                    }
                    let full = cur;
                    vols.push(full);
                    cur = Vec::new();
                    proof {
                        lemma_vol_seqs_push(before, full);
                        assert(flat(vol_seqs(vols@)) + cur@ =~= flat(vol_seqs(vols@)));
                    }
                }
                let ghost cur0 = cur@;
                cur.push(p.bytes[i]);
                proof {
                    lemma_placed_extend(vol_seqs(vols@), cur0, seq![p.bytes@[i as int]], pieces@, place, k as int);
                    assert(cur@ =~= cur0 + seq![p.bytes@[i as int]]);
                    assert(flat(vol_seqs(vols@)) + cur@ =~= (flat(vol_seqs(vols@)) + cur0) + seq![p.bytes@[i as int]]);
                    assert(p.bytes@.subrange(0, i + 1) =~= p.bytes@.subrange(0, i as int) + seq![p.bytes@[i as int]]);
                }
                i = i + 1;
            }
            proof {
                assert(p.bytes@.subrange(0, p.bytes@.len() as int) =~= p.bytes@);
                lemma_placed_next(vol_seqs(vols@), cur@, pieces@, place, k as int, -1);
                place = place.push(-1);
            }
        }
        k = k + 1;
    }
    let ghost before = vols@;
    let ghost last = cur@;
    proof {
        lemma_placed_close(vol_seqs(vols@), cur@, pieces@, place, n as int);
        lemma_flat_push(vol_seqs(vols@), cur@);
        assert(piece_seqs(pieces@).subrange(0, n as int) =~= piece_seqs(pieces@));
    }
    let full = cur;
    vols.push(full);
    proof {
        lemma_vol_seqs_push(before, full);
        let vs = vol_seqs(vols@);
        assert forall|v: int| 0 <= v < vs.len() implies (#[trigger] vs[v]).len() <= size by {
            assert(vs[v] == vols@[v]@);
        }
        assert forall|j: int|
            0 <= j < pieces@.len() && !(#[trigger] pieces@[j]).splittable implies exists|v: int|
                0 <= v < vs.len() && vol_start(vs, v) <= piece_start(pieces@, j) && piece_start(pieces@, j)
                    + pieces@[j].bytes@.len() <= vol_start(vs, v) + vs[v].len() by {
            let v = place[j];
            assert(0 <= v < vs.len());
        }
    }
    Some(vols)
}

} // verus!
