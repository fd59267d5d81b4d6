use vstd::prelude::*;
use crate::coordinates::Coordinates;
use crate::coordinates::spec_in_bounds;
use crate::pieces::Piece;

verus! {

/// The first piece of the sequence standing on `c`, scanning from the front.
pub open spec fn piece_at_seq(s: Seq<Piece>, c: Coordinates) -> Option<Piece>
    decreases s.len(),
{
    if s.len() == 0 {
        None
    } else if s[0].coordinates == c {
        Some(s[0])
    } else {
        piece_at_seq(s.drop_first(), c)
    }
}

/// No two pieces of the sequence share a coordinate.
pub open spec fn distinct_coordinates(s: Seq<Piece>) -> bool {
    forall|i: int, j: int|
        0 <= i < j < s.len() ==> s[i].coordinates != s[j].coordinates
}

/// The piece value `p` occurs somewhere in the sequence.
pub open spec fn appears(s: Seq<Piece>, p: Piece) -> bool {
    exists|i: int| 0 <= i < s.len() && s[i] == p
}

/// Every element of a sequence occurs in it.
pub proof fn lemma_appears_index(s: Seq<Piece>, i: int)
    requires
        0 <= i < s.len(),
    ensures
        appears(s, s[i]),
{
    assert(0 <= i < s.len() && s[i] == s[i]);
}

/// Scanning for `c` may skip a prefix in which no piece stands on `c`.
pub proof fn lemma_piece_at_skip(s: Seq<Piece>, c: Coordinates, i: int)
    requires
        0 <= i <= s.len(),
        forall|j: int| 0 <= j < i ==> s[j].coordinates != c,
    ensures
        piece_at_seq(s, c) == piece_at_seq(s.skip(i), c),
    decreases i,
{
    if i == 0 {
        assert(s.skip(0) =~= s);
    } else {
        assert(s[0].coordinates != c);
        lemma_piece_at_skip(s.drop_first(), c, i - 1);
        assert(s.drop_first().skip(i - 1) =~= s.skip(i));
    }
}

/// If no piece of the sequence stands on `c`, the lookup returns nothing.
pub proof fn lemma_piece_at_absent(s: Seq<Piece>, c: Coordinates)
    requires
        forall|j: int| 0 <= j < s.len() ==> s[j].coordinates != c,
    ensures
        piece_at_seq(s, c) is None,
    decreases s.len(),
{
    if s.len() > 0 {
        lemma_piece_at_absent(s.drop_first(), c);
    }
}

/// If no piece that occurs in the sequence stands on `c`, the lookup
/// returns nothing.
pub proof fn lemma_piece_at_vacant(s: Seq<Piece>, c: Coordinates)
    requires
        forall|p: Piece| #[trigger] appears(s, p) ==> p.coordinates != c,
    ensures
        piece_at_seq(s, c) is None,
{
    assert forall|j: int| 0 <= j < s.len() implies s[j].coordinates != c by {
        lemma_appears_index(s, j);
    }
    lemma_piece_at_absent(s, c);
}

/// With distinct coordinates, the lookup finds exactly the element that
/// stands on its coordinate.
pub proof fn lemma_piece_at_present(s: Seq<Piece>, i: int)
    requires
        distinct_coordinates(s),
        0 <= i < s.len(),
    ensures
        piece_at_seq(s, s[i].coordinates) == Some(s[i]),
    decreases s.len(),
{
    if i == 0 {
    } else {
        assert(s[0].coordinates != s[i].coordinates);
        lemma_piece_at_present(s.drop_first(), i - 1);
    }
}

/// With distinct coordinates, a piece that occurs in the sequence is what
/// the lookup at its coordinate finds.
pub proof fn lemma_piece_at_by_value(s: Seq<Piece>, p: Piece)
    requires
        distinct_coordinates(s),
        appears(s, p),
    ensures
        piece_at_seq(s, p.coordinates) == Some(p),
{
    let i = choose|i: int| 0 <= i < s.len() && s[i] == p;
    lemma_piece_at_present(s, i);
}

/// A successful lookup names a piece of the sequence standing on the
/// looked-up coordinate.
pub proof fn lemma_piece_at_is_member(s: Seq<Piece>, c: Coordinates)
    requires
        piece_at_seq(s, c) is Some,
    ensures
        (piece_at_seq(s, c) matches Some(p) ==> p.coordinates == c && appears(s, p)),
    decreases s.len(),
{
    if s.len() > 0 {
        if s[0].coordinates == c {
            lemma_appears_index(s, 0);
        } else {
            lemma_piece_at_is_member(s.drop_first(), c);
            let p = piece_at_seq(s, c)->0;
            let i = choose|i: int| 0 <= i < s.drop_first().len() && s.drop_first()[i] == p;
            assert(s[i + 1] == p);
        }
    }
}

/// With distinct coordinates, an empty lookup means that no piece occurring
/// in the sequence stands on the coordinate.
pub proof fn lemma_piece_at_none_no_member(s: Seq<Piece>, c: Coordinates)
    requires
        distinct_coordinates(s),
        piece_at_seq(s, c) is None,
    ensures
        forall|p: Piece| #[trigger] appears(s, p) ==> p.coordinates != c,
{
    assert forall|p: Piece| #[trigger] appears(s, p) implies p.coordinates != c by {
        let i = choose|i: int| 0 <= i < s.len() && s[i] == p;
        if p.coordinates == c {
            lemma_piece_at_present(s, i);
        }
    }
}

/// What a swap-removal leaves: the same pieces except the one at `idx`,
/// with distinctness kept and the removed piece's coordinate vacated.
pub proof fn lemma_swap_removed(pre: Seq<Piece>, post: Seq<Piece>, idx: int)
    requires
        distinct_coordinates(pre),
        0 <= idx < pre.len(),
        post == pre.update(idx, pre.last()).drop_last(),
    ensures
        post.len() == pre.len() - 1,
        distinct_coordinates(post),
        forall|p: Piece| #[trigger] appears(post, p) ==> appears(pre, p),
        forall|p: Piece| #[trigger] appears(pre, p) && p != pre[idx] ==> appears(post, p),
        forall|p: Piece| #[trigger] appears(post, p) ==> p.coordinates != pre[idx].coordinates,
{
    let n = pre.len() as int;
    assert(forall|k: int|
        0 <= k < n - 1 ==> post[k] == (if k == idx {
            pre[n - 1]
        } else {
            pre[k]
        }));
    assert forall|p: Piece| #[trigger] appears(post, p) implies appears(pre, p)
        && p.coordinates != pre[idx].coordinates by {
        let k = choose|k: int| 0 <= k < post.len() && post[k] == p;
        let mk: int = if k == idx { n - 1 } else { k };
        assert(pre[mk] == p);
        lemma_appears_index(pre, mk);
        assert(mk != idx);
    }
    assert forall|p: Piece| #[trigger] appears(pre, p) && p != pre[idx] implies appears(
        post,
        p,
    ) by {
        let k0 = choose|k0: int| 0 <= k0 < pre.len() && pre[k0] == p;
        assert(k0 != idx);
        if k0 == n - 1 {
            assert(post[idx] == p);
            lemma_appears_index(post, idx);
        } else {
            assert(post[k0] == p);
            lemma_appears_index(post, k0);
        }
    }
    assert forall|a: int, b: int|
        0 <= a < b < post.len() implies post[a].coordinates != post[b].coordinates by {
        let ma: int = if a == idx { n - 1 } else { a };
        let mb: int = if b == idx { n - 1 } else { b };
        assert(post[a] == pre[ma]);
        assert(post[b] == pre[mb]);
        assert(ma != mb);
    }
}

/// Appending a piece whose coordinate is vacant keeps distinctness, and the
/// pieces afterwards are the old ones and the new one.
pub proof fn lemma_push_piece(s: Seq<Piece>, x: Piece)
    requires
        distinct_coordinates(s),
        forall|p: Piece| #[trigger] appears(s, p) ==> p.coordinates != x.coordinates,
    ensures
        distinct_coordinates(s.push(x)),
        appears(s.push(x), x),
        forall|p: Piece| #[trigger] appears(s.push(x), p) ==> appears(s, p) || p == x,
        forall|p: Piece| #[trigger] appears(s, p) ==> appears(s.push(x), p),
{
    let t = s.push(x);
    assert(t[s.len() as int] == x);
    lemma_appears_index(t, s.len() as int);
    assert forall|p: Piece| #[trigger] appears(t, p) implies appears(s, p) || p == x by {
        let k = choose|k: int| 0 <= k < t.len() && t[k] == p;
        if k < s.len() {
            assert(s[k] == p);
            lemma_appears_index(s, k);
        }
    }
    assert forall|p: Piece| #[trigger] appears(s, p) implies appears(t, p) by {
        let k = choose|k: int| 0 <= k < s.len() && s[k] == p;
        assert(t[k] == p);
        lemma_appears_index(t, k);
    }
    assert forall|a: int, b: int|
        0 <= a < b < t.len() implies t[a].coordinates != t[b].coordinates by {
        if b < s.len() {
            assert(t[a] == s[a] && t[b] == s[b]);
        } else {
            assert(t[b] == x);
            assert(t[a] == s[a]);
            lemma_appears_index(s, a);
        }
    }
}

/// The capture step of a move application: either nothing stood on `cto`
/// and the board is unchanged, or the piece standing there was swap-removed.
/// Afterwards `cto` is vacant and every piece standing elsewhere survives.
pub proof fn lemma_capture_step(s0: Seq<Piece>, s1: Seq<Piece>, cto: Coordinates)
    requires
        distinct_coordinates(s0),
        (piece_at_seq(s0, cto) is None && s1 == s0) || exists|idx: int|
            0 <= idx < s0.len() && (#[trigger] s0[idx]).coordinates == cto && s1 == s0.update(
                idx,
                s0.last(),
            ).drop_last(),
    ensures
        distinct_coordinates(s1),
        forall|p: Piece| #[trigger] appears(s1, p) ==> appears(s0, p),
        forall|p: Piece| #[trigger] appears(s1, p) ==> p.coordinates != cto,
        forall|p: Piece| #[trigger] appears(s0, p) && p.coordinates != cto ==> appears(s1, p),
{
    if piece_at_seq(s0, cto) is None && s1 == s0 {
        lemma_piece_at_none_no_member(s0, cto);
    } else {
        let idx = choose|idx: int|
            0 <= idx < s0.len() && (#[trigger] s0[idx]).coordinates == cto && s1 == s0.update(
                idx,
                s0.last(),
            ).drop_last();
        lemma_swap_removed(s0, s1, idx);
        assert forall|p: Piece| #[trigger] appears(s0, p) && p.coordinates != cto implies appears(
            s1,
            p,
        ) by {
            assert(p != s0[idx]);
        }
    }
}

/// If every piece standing away from `cfrom` and `cto` survives a board
/// change, and every new piece either stands on `cto` or already stood on
/// the board, then the occupant of every other square is unchanged.
pub proof fn lemma_unaffected_squares(
    s0: Seq<Piece>,
    s3: Seq<Piece>,
    cfrom: Coordinates,
    cto: Coordinates,
)
    requires
        distinct_coordinates(s0),
        distinct_coordinates(s3),
        forall|p: Piece|
            #[trigger] appears(s0, p) && p.coordinates != cfrom && p.coordinates != cto
                ==> appears(s3, p),
        forall|p: Piece| #[trigger] appears(s3, p) ==> p.coordinates == cto || appears(s0, p),
    ensures
        forall|c: Coordinates|
            c != cfrom && c != cto ==> #[trigger] piece_at_seq(s3, c) == piece_at_seq(s0, c),
{
    assert forall|c: Coordinates| c != cfrom && c != cto implies #[trigger] piece_at_seq(s3, c)
        == piece_at_seq(s0, c) by {
        if piece_at_seq(s0, c) is Some {
            lemma_piece_at_is_member(s0, c);
            let p = piece_at_seq(s0, c)->0;
            assert(appears(s3, p));
            lemma_piece_at_by_value(s3, p);
        } else {
            lemma_piece_at_none_no_member(s0, c);
            assert forall|p: Piece| #[trigger] appears(s3, p) implies p.coordinates != c by {
                if p.coordinates != cto {
                    assert(appears(s0, p));
                }
            }
            lemma_piece_at_vacant(s3, c);
        }
    }
}

/// The whole board change a successful move application makes: whatever
/// stood on the destination is captured, the source piece is relocated to
/// the destination, and every other square keeps its occupant.
pub proof fn lemma_apply_move(
    s0: Seq<Piece>,
    s1: Seq<Piece>,
    s2: Seq<Piece>,
    s3: Seq<Piece>,
    from_piece: Piece,
    moved: Piece,
    cfrom: Coordinates,
    cto: Coordinates,
    idx_from: int,
)
    requires
        distinct_coordinates(s0),
        forall|p: Piece| #[trigger] appears(s0, p) ==> spec_in_bounds(p.coordinates),
        spec_in_bounds(cto),
        cfrom != cto,
        piece_at_seq(s0, cfrom) == Some(from_piece),
        moved == (Piece {
            team: from_piece.team,
            piece_type: from_piece.piece_type,
            coordinates: cto,
        }),
        (piece_at_seq(s0, cto) is None && s1 == s0) || exists|idx: int|
            0 <= idx < s0.len() && (#[trigger] s0[idx]).coordinates == cto && s1 == s0.update(
                idx,
                s0.last(),
            ).drop_last(),
        0 <= idx_from < s1.len(),
        s1[idx_from].coordinates == cfrom,
        s2 == s1.update(idx_from, s1.last()).drop_last(),
        s3 == s2.push(moved),
    ensures
        distinct_coordinates(s3),
        forall|p: Piece| #[trigger] appears(s3, p) ==> spec_in_bounds(p.coordinates),
        piece_at_seq(s3, cto) == Some(moved),
        piece_at_seq(s3, cfrom) is None,
        forall|c: Coordinates|
            c != cfrom && c != cto ==> #[trigger] piece_at_seq(s3, c) == piece_at_seq(s0, c),
{
    lemma_capture_step(s0, s1, cto);
    lemma_swap_removed(s1, s2, idx_from);
    assert(forall|p: Piece| #[trigger] appears(s2, p) ==> appears(s1, p));
    assert(forall|p: Piece| #[trigger] appears(s2, p) ==> p.coordinates != cto);
    assert(forall|p: Piece| #[trigger] appears(s2, p) ==> p.coordinates != cfrom);
    lemma_push_piece(s2, moved);
    // the moved piece stands on the destination
    lemma_piece_at_by_value(s3, moved);
    // the source is vacant
    assert forall|p: Piece| #[trigger] appears(s3, p) implies p.coordinates != cfrom by {
        assert(appears(s2, p) || p == moved);
    }
    lemma_piece_at_vacant(s3, cfrom);
    // every remaining piece stands in bounds
    assert forall|p: Piece| #[trigger] appears(s3, p) implies spec_in_bounds(p.coordinates) by {
        if p != moved {
            assert(appears(s0, p));
        }
    }
    // pieces standing away from the move's squares survive
    assert forall|p: Piece|
        #[trigger] appears(s0, p) && p.coordinates != cfrom && p.coordinates != cto implies
        appears(s3, p) by {
        assert(appears(s1, p));
        assert(p != s1[idx_from]);
        assert(appears(s2, p));
    }
    assert forall|p: Piece| #[trigger] appears(s3, p) implies p.coordinates == cto || appears(
        s0,
        p,
    ) by {
        if p != moved {
            assert(appears(s2, p));
        }
    }
    lemma_unaffected_squares(s0, s3, cfrom, cto);
}

/// An unordered collection of pieces; the playing field.
#[derive(Clone, Debug)]
pub struct Board {
    pub pieces: Vec<Piece>,
}

impl Board {
    /// The piece standing on `c`, if any.
    pub open spec fn spec_piece_at(self, c: Coordinates) -> Option<Piece> {
        piece_at_seq(self.pieces@, c)
    }

    /// Every piece stands inside the board extent, and no two pieces share
    /// a coordinate.
    pub open spec fn wf(self) -> bool {
        &&& forall|p: Piece| #[trigger] appears(self.pieces@, p) ==> spec_in_bounds(p.coordinates)
        &&& distinct_coordinates(self.pieces@)
    }

    /// Point lookup: the piece occupying `c`, if any.
    pub fn get_piece_at(&self, c: &Coordinates) -> (r: Option<Piece>)
        ensures
            r == self.spec_piece_at(*c),
    {
        let n = self.pieces.len();
        let mut k: usize = 0;
        while k < n
            invariant
                n == self.pieces@.len(),
                0 <= k <= n,
                forall|j: int| 0 <= j < k ==> self.pieces@[j].coordinates != *c,
            decreases n - k,
        {
            if self.pieces[k].coordinates == *c {
                proof {
                    lemma_piece_at_skip(self.pieces@, *c, k as int);
                    assert(self.pieces@.skip(k as int)[0] == self.pieces@[k as int]);
                }
                return Some(self.pieces[k]);
            }
            k += 1;
        }
        proof {
            lemma_piece_at_absent(self.pieces@, *c);
        }
        None
    }

    /// The position in the backing vector of the piece occupying `c`, if any.
    pub fn index_of(&self, c: &Coordinates) -> (r: Option<usize>)
        ensures
            (r matches Some(i) ==> {
                &&& i < self.pieces@.len()
                &&& self.pieces@[i as int].coordinates == *c
            }),
            r is None ==> forall|j: int|
                0 <= j < self.pieces@.len() ==> self.pieces@[j].coordinates != *c,
    {
        let n = self.pieces.len();
        let mut k: usize = 0;
        while k < n
            invariant
                n == self.pieces@.len(),
                0 <= k <= n,
                forall|j: int| 0 <= j < k ==> self.pieces@[j].coordinates != *c,
            decreases n - k,
        {
            if self.pieces[k].coordinates == *c {
                return Some(k);
            }
            k += 1;
        }
        None
    }
}

} // verus!
