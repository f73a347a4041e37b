# mcts

A Monte Carlo Tree Search engine for turn-based board games (Gomoku,
Connect 4, Othello, Blokus, Hive), with its search tree, search decisions and
interface state machines written in Verus and proved against their
contracts.

Layout:

- `src/tree.rs`: search-tree nodes with integer statistics; expansion,
  backpropagation, virtual losses, pruning, node counting.
- `src/shape.rs`: the shape every tree keeps (siblings reached by different
  moves, children one level below their parent).
- `src/engine.rs`: the search state (tree, node count, node limit, move
  selection) and the decisions a search takes around simulations.
- `src/game.rs`: the interface a game implements.
- `src/cells.rs`: how the terminal draws the board (each cell's symbol and
  colours, column widths, row and column labels) and the visible window of
  the move history.
- `src/rng.rs`: the seeded xoshiro256++ generator and range scaling.
- `src/othello.rs`: Othello move generation on a 64-cell board.
- `src/ranking.rs`: highest values of lists and grids.
- `src/gui.rs`, `src/renderers.rs`: the windowed interface's screens, keys,
  settings and board-view state.
- `src/layout.rs`, `src/mouse.rs`, `src/blokus_ui.rs`: the terminal
  interface's panel layout, pointer handling and Blokus piece panel.
- `src/text.rs`: names, numbers, instructions, move descriptions, dumps.
- `src/worker.rs`, `src/config.rs`: the search worker's decisions and the
  start-up configuration.
- `src/laws.rs`: properties that hold across operations.
- `app/`: the command-line entry point and the threaded search with its
  floating-point scores and time limits.
