# drive_download

Downloads from Google Drive: one file, or a directory with all that is in it.

`src/` holds what is decided and computed, verified with Verus: what a download comes down to,
what files are called on disk, the walk through a directory, what becomes of shortcuts, when a
file is complete, and every message. `app/` does the outside work: it talks to the service, to the
file system and to the user.

| module | what it holds |
| --- | --- |
| `config` | what was asked for, and the checks on it |
| `filename` | file names that a file system accepts |
| `paths` | paths, and the relative path from one to another |
| `digest` | MD5 checksums, by way of the `md5` crate |
| `save` | saving contents under a temporary name until they are complete |
| `drive` | files as the service describes them |
| `stats` | what a directory download has done so far |
| `steps` | what a directory download asks for, and what it gets back |
| `scan` | the first look at a file in a directory |
| `walk` | the walk through a directory |
| `tree` | what a whole walk does, by recursion over the tree, and the proof of it |
| `shortcut` | the work on one shortcut |
| `ways` | the folders that shortcuts have led into on the way to a shortcut |
| `directory` | a directory download as a whole |
| `report`, `error`, `text` | lines for the user, failures, text |

Proof functions whose names start with `law_` state what holds of the library as a whole.
