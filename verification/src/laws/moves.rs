//! When two lists of moves take a rectangle to the same place.

use crate::record::{DrawView, RecorderView};
use crate::recording::Command;
use crate::scene::SceneView;
use vstd::prelude::*;

verus! {

/// The moves that move something. Adding zero to a corner changes no number; it only takes the
/// sign off a negative zero.
pub open spec fn real_moves(moves: Seq<(int, int)>) -> Seq<(int, int)> {
    moves.filter(|by: (int, int)| by != (0int, 0int))
}

/// All moves, in sum.
pub open spec fn net_move(moves: Seq<(int, int)>) -> (int, int)
    decreases moves.len(),
{
    if moves.len() == 0 {
        (0, 0)
    } else {
        let before = net_move(moves.drop_last());
        (before.0 + moves.last().0, before.1 + moves.last().1)
    }
}

impl DrawView {
    /// The draw without moves by nothing.
    pub open spec fn with_real_moves(self) -> DrawView {
        match self {
            DrawView::Path { .. } => self,
            DrawView::Rect { rect, moves, paint } => DrawView::Rect {
                rect,
                moves: real_moves(moves),
                paint,
            },
        }
    }

    /// The draw with its moves in sum.
    pub open spec fn with_net_move(self) -> DrawView {
        match self {
            DrawView::Path { .. } => self,
            DrawView::Rect { rect, moves, paint } => DrawView::Rect {
                rect,
                moves: seq![net_move(moves)],
                paint,
            },
        }
    }
}

impl Command {
    /// The command without moves by nothing.
    pub open spec fn with_real_moves(self) -> Command {
        match self {
            Command::FillRect { rect, moves, paint } => Command::FillRect {
                rect,
                moves: real_moves(moves),
                paint,
            },
            _ => self,
        }
    }
}

impl RecorderView {
    /// The recording without moves by nothing.
    pub open spec fn with_real_moves(self) -> RecorderView {
        RecorderView {
            draws: self.draws.map_values(|draw: DrawView| draw.with_real_moves()),
            ..self
        }
    }

    /// The recording with the moves of each rectangle in sum.
    pub open spec fn with_net_moves(self) -> RecorderView {
        RecorderView {
            draws: self.draws.map_values(|draw: DrawView| draw.with_net_move()),
            ..self
        }
    }
}

impl SceneView {
    /// The scene without moves by nothing.
    pub open spec fn with_real_moves(self) -> SceneView {
        SceneView { recorder: self.recorder.with_real_moves(), ..self }
    }

    /// The scene with the moves of each rectangle in sum.
    pub open spec fn with_net_moves(self) -> SceneView {
        SceneView { recorder: self.recorder.with_net_moves(), ..self }
    }
}

/// A move by nothing is no real move.
pub(crate) proof fn lemma_null_move(moves: Seq<(int, int)>)
    ensures
        real_moves(moves.push((0, 0))) == real_moves(moves),
{
    reveal(Seq::filter);
    assert(moves.push((0, 0)).drop_last() =~= moves);
}

/// One more move adds to the sum.
pub(crate) proof fn lemma_net_move_push(moves: Seq<(int, int)>, by: (int, int))
    ensures
        net_move(moves.push(by)) == (net_move(moves).0 + by.0, net_move(moves).1 + by.1),
{
    assert(moves.push(by).drop_last() =~= moves);
}

/// The commands without moves by nothing.
pub(crate) open spec fn real_commands(commands: Seq<Command>) -> Seq<Command> {
    commands.map_values(|command: Command| command.with_real_moves())
}

proof fn lemma_real_moves_recorded(scene: SceneView, command: Command)
    ensures
        scene.recorded(command).with_real_moves() == scene.with_real_moves().recorded(
            command.with_real_moves(),
        ),
{
    let after = scene.recorded(command).with_real_moves();
    let before = scene.with_real_moves().recorded(command.with_real_moves());
    assert(after.recorder.draws =~= before.recorder.draws);
    assert(after.recorder =~= before.recorder);
}

/// Taking out the moves by nothing before recording is taking them out after it.
pub(crate) proof fn lemma_real_moves_recorded_all(scene: SceneView, commands: Seq<Command>)
    ensures
        scene.recorded_all(commands).with_real_moves() == scene.with_real_moves().recorded_all(
            real_commands(commands),
        ),
    decreases commands.len(),
{
    if commands.len() > 0 {
        let front = commands.drop_last();
        lemma_real_moves_recorded_all(scene, front);
        lemma_real_moves_recorded(scene.recorded_all(front), commands.last());
        assert(real_commands(commands).drop_last() =~= real_commands(front));
    }
}

} // verus!
