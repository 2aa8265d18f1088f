# DropRate Launcher

The native app: pair with your wallet, install the games you own, play them.

- `src/` is the verified library. It decides everything: whether a game may launch
  (`gate`, `play`), where an entry of a build's archive may be written (`archive`,
  `install`), which file is the game (`executable`), what the launcher remembers and
  what its file keeps (`state`), what the server is asked (`api`), and what the player
  is shown (`library`, `store`, `pairing`, `links`).
- `app/` is the program around it: the window and its commands, HTTP, files and
  processes. The window needs Tauri 2.
- `tests/` runs the library.

The resale rule, which `gate` states and proves:

| Server says | Result |
|---|---|
| owned | launches |
| not owned | blocked, always: no grace, no override |
| couldn't ask | launches for up to 72 hours since the last confirmed check |

A server that was reached and gives no answer, because the pairing was revoked or for any
other refusal, is no reason for grace. Selling a copy also ends its grace on the next
refresh of the library, whether the copy is listed as sold or not listed any more, so a
seller wins nothing by pulling the network cable.
