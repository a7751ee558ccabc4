# questfleet

A terminal dashboard for a fleet of quests: long-running pieces of work, each with
its agents in a tmux session of its own, on this machine and on others.

`src/` is the dashboard's logic, verified with Verus. It touches no terminal, no
process and no file:

| module | what it holds |
| --- | --- |
| `text`, `table`, `list`, `paint`, `json` | strings, small tables, filtered lists, styled lines, and the two things read out of JSON |
| `model` | the records: quests, sessions, events, links, templates, configuration, errors |
| `keys`, `layout`, `pager`, `lifecycle` | the input alphabet, the layout arithmetic, the pager command, the terminal's modes |
| `form` | the modal input layer every prompt is made of |
| `tmux`, `fixture` | tmux arguments, parsing and liveness, and a tmux server in memory |
| `app` | the key and mouse state machine around the tabs |
| `quests`, `quest_lines` | the Quests tab: filters, selection, prompts, and what its rows and panel say |
| `events`, `event_lines` | the Events tab: a filtered tail, and what its rows and panel say |
| `shell`, `screen` | the event loop's decisions and messages, and the layout of a whole frame |
| `laws`, `drawn` | what holds of the dashboard as a whole |

Each function's contract says what it returns as a spec function of the values it
was given. Public proof functions state what holds across functions: that a form
takes every key while it is up, that the selection stays on its quest across a
reload, that a prompt never acts on a quest it was not opened against, that what
arms a terminal is undone, and so on.

Some facts are taken from outside: the display width and the grapheme clusters of
a text (`layout`), the lower case of a text and appending a character to a string
(`text`), and two readings of JSON (`json`). Their doc comments say what is claimed.

`app/` is the ordinary Rust around it: the terminal, the tmux on `PATH`, a tmux
fixture kept in a file, the pager, and the loop that performs what the library
decides. The database, the remote poller and the commands stand behind its `Host`
trait.

`tests/` runs the library from outside, drawing frames with ratatui where it
matters what is on screen.
