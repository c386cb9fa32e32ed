# inako

The playlist and protocol logic of the Inako music player, verified with
Verus, and the three programs around it.

Inako is a daemon (`inako-dae`) that owns the playlist and an embedded libmpv
player, a command line client (`inako-cli`) and a GTK window (`inako-gui`);
the clients talk to the daemon over a Unix socket with versioned playlist
edits.

## Layout

- `src/` is the verified library:
  - `change`, `add`, `delete`, `reorder`: the edit messages and the batch
    insertion, deletion and move, each at the indices the playlist had
    before the edit;
  - `manager`: the versioned playlist that the daemon owns and each window
    mirrors; `requests`: how the daemon answers playlist requests;
  - `index_map`: where each item goes under an edit, and the replay of an
    edit on a plain list;
  - `laws`: what holds of the protocol as a whole (edits follow their items,
    clients in step replay broadcasts to the daemon's state, stale clients
    refuse them, snapshots restore);
  - `pending`, `window`, `selection`, `drag`: the window's update queue, how
    it takes an edit into its copy and selection, and the moves that its
    buttons and drags ask for;
  - `edits`, `exchange`, `args`: the client's edits (with the shuffle), the
    steps and failure messages of its requests, and the command lines;
  - `lines`, `lyrics`, `text`: text playlists, LRC lyrics, the process status
    file, and the texts the programs print;
  - `paths`: the file paths that the playlist holds.
- `app/` holds the programs: sockets, threads, files, libmpv, lofty, GTK,
  serialisation, and the floating point work on times.
- `tests/` runs the library on concrete values.

The window reads its layout (`window.ui`) and style sheet (`style.css`) from
the directory of the program.
