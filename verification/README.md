# opentake

The editing core of a non-linear video editor, verified with Verus.

Every editing surface funnels through one command type, `command::EditCommand`, and one
transaction: take the document, run the command, and commit only if something changed.
`apply::apply` dispatches the commands under `commands/`; each of them states in its
contract exactly what it reports and what becomes of the document. `app_core::AppCore`
holds the one session that all clients share, with its revisions, its events and its
saves. `media` decides what ffmpeg is asked for and what is made of its answer.

## Layout

- `src/model.rs`, `src/entries.rs`: the document, the entries of commands, their views.
- `src/state.rs`, `src/edit.rs`, `src/apply.rs`: history, transactions, dispatch.
- `src/commands/`: one file for each group of commands.
- `src/registry.rs`: the nested-sequence registry's last word on an edit.
- `src/app_core/`, `src/session.rs`, `src/events.rs`: the shared core.
- `src/media/`: arguments, sizes, pictures, PCM, transcripts, motion between frames.
- `src/alike.rs`: when two documents are the same; numbers compare as numbers.
- `src/binary64.rs`: numbers held by their IEEE 754 encoding, with exact rounding.
- `src/transitions.rs`, `src/links.rs`, `src/arrange.rs`, `src/locate.rs`,
  `src/keyframe_track.rs`, `src/frames.rs`: what commands have in common.
- `tests/`: tests that run the library.
- `app/`: files, processes, locks, floating point, and the engines that clear, place,
  split and move clips.

## What comes from outside

The placement and ripple engines, the sampler, the checks of settings and the storage of
projects are not part of the library. What they came to is an argument: `command::Outside`
for the engines, a `Result` for a write or a read. Contracts hold for every value of it.
The engines work on the timeline alone: the media library is the library's own business,
and so is what a command puts on a region that an engine has cleared.
Pictures are read and written by the `image` crate.

## Laws

Public proof functions whose names begin with `law_` state what holds across operations,
for example that undo restores what a transaction changed, that a failed or stale edit
leaves nothing behind, that transitions stand on cuts after every edit but a ripple delete
(which leaves them to its engine), and that no clip shows deleted media.
