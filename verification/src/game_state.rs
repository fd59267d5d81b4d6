use vstd::prelude::*;
use crate::board::Board;
use crate::board::appears;
use crate::board::lemma_appears_index;
use crate::board::lemma_apply_move;
use crate::board::lemma_capture_step;
use crate::board::lemma_piece_at_absent;
use crate::board::lemma_piece_at_is_member;
use crate::board::lemma_piece_at_present;
use crate::coordinates::Coordinates;
use crate::coordinates::spec_in_bounds;
use crate::error::Error;
use crate::moves::Move;
use crate::pieces::Piece;
use crate::pieces::PlayerTeam;
use crate::pieces::lemma_offsets_bounded;
use crate::pieces::spec_offsets;
use crate::pieces::spec_opponent;

verus! {

/// A game is over once this many turns have been played.
pub const TURN_LIMIT: i32 = 60;

/// A team that has gathered this many ambers ends the game.
pub const AMBER_TARGET: u32 = 2;

/// Per-team resource counters affecting win determination.
#[derive(Clone, Copy, PartialEq, Eq, Structural, Debug)]
pub struct Ambers {
    pub team_one: u32,
    pub team_two: u32,
}

/// The outcome of a finished game: the winning team, or none for a draw.
#[derive(Clone, Copy, PartialEq, Eq, Debug)]
pub struct GameResult {
    pub winner_team: Option<PlayerTeam>,
}

/// The authoritative local view of the game: board, whose-turn bookkeeping,
/// per-team resource counters and the move applied last.
#[derive(Clone, Debug)]
pub struct GameState {
    pub start_team: PlayerTeam,
    pub board: Board,
    pub last_move: Option<Move>,
    pub turn: i32,
    pub ambers: Ambers,
}

/// A move is legal for `team` exactly when both of its squares lie on the
/// board, its source holds a piece of `team`, and its destination is empty
/// or holds a piece of the opposing team.
pub open spec fn spec_can_perform_move(gs: GameState, m: Move, team: PlayerTeam) -> bool {
    &&& spec_in_bounds(m.from)
    &&& spec_in_bounds(m.to)
    &&& (gs.board.spec_piece_at(m.from) matches Some(p) && p.team == team)
    &&& (gs.board.spec_piece_at(m.to) matches Some(q) ==> q.team != team)
}

/// `m` moves the piece `p` by the displacement `o`.
pub open spec fn spec_move_of(p: Piece, o: Coordinates, m: Move) -> bool {
    &&& m.from == p.coordinates
    &&& m.to.x == p.coordinates.x + o.x
    &&& m.to.y == p.coordinates.y + o.y
}

/// `m` translates one of the first `n` pieces on the board by one of that
/// piece's own offsets.
pub open spec fn spec_candidate_upto(gs: GameState, m: Move, n: int) -> bool {
    exists|i: int, j: int| {
        &&& 0 <= i < n
        &&& i < gs.board.pieces@.len()
        &&& 0 <= j < spec_offsets(gs.board.pieces@[i].piece_type, gs.board.pieces@[i].team).len()
        &&& spec_move_of(
            gs.board.pieces@[i],
            #[trigger] spec_offsets(gs.board.pieces@[i].piece_type, gs.board.pieces@[i].team)[j],
            m,
        )
    }
}

/// `m` translates some piece on the board by one of that piece's offsets.
pub open spec fn spec_candidate(gs: GameState, m: Move) -> bool {
    spec_candidate_upto(gs, m, gs.board.pieces@.len() as int)
}

/// `m` translates the piece `p` by one of the first `jn` of its offsets.
pub open spec fn spec_piece_candidate_upto(p: Piece, m: Move, jn: int) -> bool {
    exists|j: int| {
        &&& 0 <= j < jn
        &&& j < spec_offsets(p.piece_type, p.team).len()
        &&& spec_move_of(p, #[trigger] spec_offsets(p.piece_type, p.team)[j], m)
    }
}

/// The moving team's piece stands on the move's source; the move is legal.
pub open spec fn spec_movable(gs: GameState, m: Move) -> bool {
    gs.board.spec_piece_at(m.from) matches Some(p) && spec_can_perform_move(gs, m, p.team)
}

/// How a successfully applied move relates the new state to the old one:
/// the bookkeeping advances, the moved piece now stands on the destination,
/// the source is empty, any captured piece is gone, and every other square
/// is untouched.
pub open spec fn spec_move_applied(pre: GameState, post: GameState, m: Move) -> bool {
    &&& post.start_team == pre.start_team
    &&& post.ambers == pre.ambers
    &&& post.turn == pre.turn + 1
    &&& post.last_move == Some(m)
    &&& (pre.board.spec_piece_at(m.from) matches Some(p) ==> post.board.spec_piece_at(m.to)
        == Some(
            (Piece { team: p.team, piece_type: p.piece_type, coordinates: m.to }),
        ))
    &&& post.board.spec_piece_at(m.from) is None
    &&& forall|c: Coordinates|
        c != m.from && c != m.to ==> #[trigger] post.board.spec_piece_at(c)
            == pre.board.spec_piece_at(c)
}

impl GameState {
    /// Board invariant plus a non-negative turn counter.
    pub open spec fn wf(self) -> bool {
        &&& self.board.wf()
        &&& 0 <= self.turn
    }

    /// The team whose turn it is, derived from the parity of `turn`: on
    /// even turns the starting team acts, on odd turns its opponent.
    pub open spec fn spec_current_team(self) -> PlayerTeam {
        if self.turn % 2 == 0 {
            self.start_team
        } else {
            spec_opponent(self.start_team)
        }
    }

    /// Whether `m` is legal for `team` in this state.
    pub fn can_perform_move(&self, m: &Move, team: PlayerTeam) -> (r: bool)
        ensures
            r == spec_can_perform_move(*self, *m, team),
    {
        // Check if position and target position of the move are valid
        let coords_from = m.from;
        let coords_to = m.to;

        if !coords_to.in_bounds() || !coords_from.in_bounds() {
            return false;
        }

        // Check if the moved piece belongs to the target team
        let piece_at_position = self.board.get_piece_at(&coords_from);
        let piece_belongs_to_team = match piece_at_position {
            Some(piece) => piece.team == team,
            None => false,
        };

        // Check if the piece moves to an empty field or a field
        // that contains an opponent piece
        let piece_at_target = self.board.get_piece_at(&coords_to);
        let move_to_valid_field = match piece_at_target {
            Some(piece) => piece.team != team,
            None => true,
        };

        piece_belongs_to_team && move_to_valid_field
    }

    /// Every move that translates some piece on the board by one of that
    /// piece's own offsets and is legal for `team` — exactly those.
    pub fn calculate_possible_moves(&self, team: &PlayerTeam) -> (moves: Vec<Move>)
        requires
            self.wf(),
        ensures
            forall|m: Move|
                #[trigger] moves@.contains(m) <==> spec_candidate(*self, m)
                    && spec_can_perform_move(*self, m, *team),
    {
        let n = self.board.pieces.len();
        let mut moves: Vec<Move> = Vec::new();
        let mut i: usize = 0;
        while i < n
            invariant
                self.wf(),
                n == self.board.pieces@.len(),
                0 <= i <= n,
                forall|m: Move|
                    #[trigger] moves@.contains(m) <==> spec_candidate_upto(*self, m, i as int)
                        && spec_can_perform_move(*self, m, *team),
            decreases n - i,
        {
            let piece = self.board.pieces[i];
            let offsets = piece.piece_type.calculate_offsets(&piece.team);
            let nj = offsets.len();
            let mut j: usize = 0;
            while j < nj
                invariant
                    self.wf(),
                    n == self.board.pieces@.len(),
                    0 <= i < n,
                    piece == self.board.pieces@[i as int],
                    offsets@ == spec_offsets(piece.piece_type, piece.team),
                    nj == offsets@.len(),
                    0 <= j <= nj,
                    forall|m: Move|
                        #[trigger] moves@.contains(m) <==> (spec_candidate_upto(*self, m, i as int)
                            || spec_piece_candidate_upto(piece, m, j as int))
                            && spec_can_perform_move(*self, m, *team),
                decreases nj - j,
            {
                let offset = offsets[j];
                proof {
                    lemma_offsets_bounded(piece.piece_type, piece.team);
                    lemma_appears_index(self.board.pieces@, i as int);
                    assert(spec_in_bounds(self.board.pieces@[i as int].coordinates));
                }
                let to = piece.coordinates.add(&offset);
                let new_move = Move { from: piece.coordinates, to };
                let ghost old_moves = moves@;
                let can = self.can_perform_move(&new_move, *team);
                if can {
                    moves.push(new_move);
                }
                proof {
                    // a piece-candidate at offset j is exactly the move just built
                    assert forall|m: Move|
                        spec_piece_candidate_upto(piece, m, j + 1)
                            && !spec_piece_candidate_upto(piece, m, j as int) implies m
                        == new_move by {
                        let jw = choose|jw: int| {
                            &&& 0 <= jw < j + 1
                            &&& jw < spec_offsets(piece.piece_type, piece.team).len()
                            &&& spec_move_of(
                                piece,
                                #[trigger] spec_offsets(piece.piece_type, piece.team)[jw],
                                m,
                            )
                        };
                        assert(jw == j as int);
                        assert(m.to.x == new_move.to.x && m.to.y == new_move.to.y);
                    }
                    assert(spec_move_of(
                        piece,
                        spec_offsets(piece.piece_type, piece.team)[j as int],
                        new_move,
                    ));
                    assert(spec_piece_candidate_upto(piece, new_move, j + 1));
                    assert forall|m: Move| #[trigger] moves@.contains(m) implies (
                        spec_candidate_upto(*self, m, i as int) || spec_piece_candidate_upto(
                        piece,
                        m,
                        j + 1,
                    )) && spec_can_perform_move(*self, m, *team) by {
                        let k = choose|k: int| 0 <= k < moves@.len() && moves@[k] == m;
                        if k < old_moves.len() {
                            assert(old_moves[k] == m);
                            assert(old_moves.contains(m));
                        } else {
                            assert(m == new_move);
                        }
                    }
                    assert forall|m: Move| (spec_candidate_upto(*self, m, i as int)
                        || spec_piece_candidate_upto(piece, m, j + 1)) && spec_can_perform_move(
                        *self,
                        m,
                        *team,
                    ) implies #[trigger] moves@.contains(m) by {
                        if spec_candidate_upto(*self, m, i as int) || spec_piece_candidate_upto(
                            piece,
                            m,
                            j as int,
                        ) {
                            assert(old_moves.contains(m));
                            let k = choose|k: int| 0 <= k < old_moves.len() && old_moves[k] == m;
                            assert(moves@[k] == m);
                        } else {
                            assert(m == new_move);
                            assert(can);
                            assert(moves@.last() == m);
                        }
                    }
                }
                j += 1;
            }
            proof {
                assert forall|m: Move|
                    spec_candidate_upto(*self, m, i as int) || spec_piece_candidate_upto(
                        piece,
                        m,
                        nj as int,
                    ) implies spec_candidate_upto(*self, m, i + 1) by {
                    if spec_piece_candidate_upto(piece, m, nj as int) {
                        let jw = choose|jw: int| {
                            &&& 0 <= jw < nj
                            &&& jw < spec_offsets(piece.piece_type, piece.team).len()
                            &&& spec_move_of(
                                piece,
                                #[trigger] spec_offsets(piece.piece_type, piece.team)[jw],
                                m,
                            )
                        };
                        assert(spec_move_of(
                            self.board.pieces@[i as int],
                            spec_offsets(
                                self.board.pieces@[i as int].piece_type,
                                self.board.pieces@[i as int].team,
                            )[jw],
                            m,
                        ));
                    }
                }
                assert forall|m: Move| spec_candidate_upto(*self, m, i + 1) implies
                    spec_candidate_upto(*self, m, i as int) || spec_piece_candidate_upto(
                        piece,
                        m,
                        nj as int,
                    ) by {
                    let (iw, jw) = choose|iw: int, jw: int| {
                        &&& 0 <= iw < i + 1
                        &&& iw < self.board.pieces@.len()
                        &&& 0 <= jw < spec_offsets(
                            self.board.pieces@[iw].piece_type,
                            self.board.pieces@[iw].team,
                        ).len()
                        &&& spec_move_of(
                            self.board.pieces@[iw],
                            #[trigger] spec_offsets(
                                self.board.pieces@[iw].piece_type,
                                self.board.pieces@[iw].team,
                            )[jw],
                            m,
                        )
                    };
                    if iw == i as int {
                        assert(spec_move_of(
                            piece,
                            spec_offsets(piece.piece_type, piece.team)[jw],
                            m,
                        ));
                        assert(spec_piece_candidate_upto(piece, m, nj as int));
                    } else {
                        assert(spec_candidate_upto(*self, m, i as int));
                    }
                }
            }
            i += 1;
        }
        moves
    }

    /// The team whose turn it is.
    pub fn get_current_team(&self) -> (r: PlayerTeam)
        requires
            0 <= self.turn,
        ensures
            r == self.spec_current_team(),
    {
        if self.turn % 2 == 0 {
            self.start_team
        } else {
            self.start_team.opponent()
        }
    }

    /// Applies `m`: captures whatever stands on the destination, relocates
    /// the piece standing on the source, records the move as the last one
    /// and advances the turn by exactly one; the resource counters are left
    /// to the authoritative server snapshots. Rejected — with the state
    /// untouched — exactly when the source holds no piece, or the move is
    /// not legal for the team of the piece standing there.
    pub fn perform_move(&mut self, m: &Move) -> (r: Result<(), Error>)
        requires
            old(self).wf(),
            old(self).turn < i32::MAX,
        ensures
            final(self).wf(),
            r is Ok <==> spec_movable(*old(self), *m),
            r is Ok ==> spec_move_applied(*old(self), *final(self), *m),
            r is Err ==> *final(self) == *old(self) && r == Err::<(), Error>(Error::IllegalMove),
    {
        let from_piece = match self.board.get_piece_at(&m.from) {
            Some(p) => p,
            None => {
                return Err(Error::IllegalMove);
            },
        };
        if !self.can_perform_move(m, from_piece.team) {
            return Err(Error::IllegalMove);
        }

        let ghost s0 = self.board.pieces@;
        proof {
            // the destination may not hold a piece of the moving team, so
            // it cannot be the source square
            assert(m.from != m.to);
        }

        // capture whatever stands on the destination
        let captured = self.board.index_of(&m.to);
        match captured {
            Some(idx) => {
                let _ = self.board.pieces.swap_remove(idx);
            },
            None => {
                proof {
                    lemma_piece_at_absent(s0, m.to);
                }
            },
        }
        let ghost s1 = self.board.pieces@;
        proof {
            match captured {
                Some(idx) => {
                    assert(0 <= idx < s0.len() && s0[idx as int].coordinates == m.to && s1
                        == s0.update(idx as int, s0.last()).drop_last());
                },
                None => {},
            }
            lemma_capture_step(s0, s1, m.to);
            lemma_piece_at_is_member(s0, m.from);
            assert(appears(s1, from_piece));
        }

        // relocate the moving piece
        let idx_from = match self.board.index_of(&m.from) {
            Some(i) => i,
            None => {
                proof {
                    let kf = choose|kf: int| 0 <= kf < s1.len() && s1[kf] == from_piece;
                    assert(s1[kf].coordinates == m.from);
                    assert(false);
                }
                return Err(Error::IllegalMove);
            },
        };
        let moved = Piece {
            team: from_piece.team,
            piece_type: from_piece.piece_type,
            coordinates: m.to,
        };
        let _ = self.board.pieces.swap_remove(idx_from);
        let ghost s2 = self.board.pieces@;
        self.board.pieces.push(moved);
        let ghost s3 = self.board.pieces@;
        self.turn = self.turn + 1;
        self.last_move = Some(*m);
        proof {
            lemma_apply_move(s0, s1, s2, s3, from_piece, moved, m.from, m.to, idx_from as int);
            assert(self.board.wf());
            assert(spec_move_applied(*old(self), *self, *m));
        }
        Ok(())
    }

    /// `None` while the game is ongoing; once the turn limit is reached or
    /// a team holds the amber target, the team with strictly more ambers
    /// wins, and equal counts are a draw.
    pub fn get_result(&self) -> (r: Option<GameResult>)
        ensures
            spec_is_terminal(*self) ==> r == Some(
                (GameResult { winner_team: spec_winner(*self) }),
            ),
            !spec_is_terminal(*self) ==> r is None,
    {
        if self.turn >= TURN_LIMIT || self.ambers.team_one >= AMBER_TARGET
            || self.ambers.team_two >= AMBER_TARGET {
            let winner_team = if self.ambers.team_one > self.ambers.team_two {
                Some(PlayerTeam::One)
            } else if self.ambers.team_two > self.ambers.team_one {
                Some(PlayerTeam::Two)
            } else {
                None
            };
            Some(GameResult { winner_team })
        } else {
            None
        }
    }
}

/// The game is over: the turn limit is reached, or a team holds the amber
/// target.
pub open spec fn spec_is_terminal(gs: GameState) -> bool {
    gs.turn >= TURN_LIMIT || gs.ambers.team_one >= AMBER_TARGET || gs.ambers.team_two
        >= AMBER_TARGET
}

/// The team with strictly more ambers; equal counts mean no winner.
pub open spec fn spec_winner(gs: GameState) -> Option<PlayerTeam> {
    if gs.ambers.team_one > gs.ambers.team_two {
        Some(PlayerTeam::One)
    } else if gs.ambers.team_two > gs.ambers.team_one {
        Some(PlayerTeam::Two)
    } else {
        None
    }
}

/// A move whose source or destination lies outside the board extent is
/// never legal, for any team and whatever stands on the board.
pub proof fn lemma_out_of_bounds_never_legal(gs: GameState, m: Move, team: PlayerTeam)
    requires
        !spec_in_bounds(m.from) || !spec_in_bounds(m.to),
    ensures
        !spec_can_perform_move(gs, m, team),
{
}

/// A piece owned by `team` at an in-bounds source may always move to an
/// in-bounds empty destination.
pub proof fn lemma_move_to_empty_legal(gs: GameState, m: Move, team: PlayerTeam)
    requires
        spec_in_bounds(m.from),
        spec_in_bounds(m.to),
        gs.board.spec_piece_at(m.from) matches Some(p) && p.team == team,
        gs.board.spec_piece_at(m.to) is None,
    ensures
        spec_can_perform_move(gs, m, team),
{
}

/// Landing on a piece of one's own team is never legal.
pub proof fn lemma_move_onto_own_piece_illegal(gs: GameState, m: Move, team: PlayerTeam)
    requires
        gs.board.spec_piece_at(m.to) matches Some(q) && q.team == team,
    ensures
        !spec_can_perform_move(gs, m, team),
{
}

/// A destination held by the opposing team keeps the move legal: capture.
pub proof fn lemma_capture_remains_legal(gs: GameState, m: Move, team: PlayerTeam)
    requires
        spec_in_bounds(m.from),
        spec_in_bounds(m.to),
        gs.board.spec_piece_at(m.from) matches Some(p) && p.team == team,
        gs.board.spec_piece_at(m.to) matches Some(q) && q.team != team,
    ensures
        spec_can_perform_move(gs, m, team),
{
}

/// Every move that is legal for `team` has its source occupied by a piece
/// owned by `team`; with the contract of `calculate_possible_moves`, every
/// move that function returns does.
pub proof fn lemma_legal_move_source_owned(gs: GameState, m: Move, team: PlayerTeam)
    requires
        spec_can_perform_move(gs, m, team),
    ensures
        gs.board.spec_piece_at(m.from) matches Some(p) && p.team == team,
{
}

/// A piece owned by `team`, one of whose offsets leads to an in-bounds
/// destination that is empty or held by the opposing team, contributes
/// exactly that move to what `calculate_possible_moves(team)` returns.
pub proof fn lemma_offset_move_in_legal_set(
    gs: GameState,
    m: Move,
    team: PlayerTeam,
    i: int,
    j: int,
)
    requires
        gs.wf(),
        0 <= i < gs.board.pieces@.len(),
        gs.board.pieces@[i].team == team,
        0 <= j < spec_offsets(gs.board.pieces@[i].piece_type, gs.board.pieces@[i].team).len(),
        spec_move_of(
            gs.board.pieces@[i],
            spec_offsets(gs.board.pieces@[i].piece_type, gs.board.pieces@[i].team)[j],
            m,
        ),
        spec_in_bounds(m.to),
        (gs.board.spec_piece_at(m.to) matches Some(q) ==> q.team != team),
    ensures
        spec_candidate(gs, m),
        spec_can_perform_move(gs, m, team),
{
    lemma_appears_index(gs.board.pieces@, i);
    assert(spec_in_bounds(gs.board.pieces@[i].coordinates));
    lemma_piece_at_present(gs.board.pieces@, i);
    assert(gs.board.spec_piece_at(m.from) == Some(gs.board.pieces@[i]));
}

} // verus!
