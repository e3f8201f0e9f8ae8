# conveyor

A terminal view of a change on its way to production: my pull requests, the merge queue,
the builds of the main branch and what each environment runs, side by side.

The library under `src/` holds what the view knows and decides, each function with a
contract that Verus proves:

- `json`, `model/`: reading the GitHub and Actions answers (pull requests, the merge queue,
  workflow runs, jobs, the failed step's log) and the image tags an environment runs.
- `app`: the state of the view and how fetched data and fetch errors change it; `keys`: what
  each key does, and the loop step that turns an input into the next state and the work it
  asks for (fetches, opening a page, copying).
- `ui/`: the text the view draws, as runs of characters with a look: cards, column titles,
  the details pane, the footer and the key help. `text`, `wrap`, `strs`, `time`: fitting text
  to a width, durations, clocks, and string helpers.
- `cli`, `config`, `github`, `kube`, `open`, `command`: the command line, the
  configuration, the arguments the outside programs are run with, and what their output
  means.

`app/` is the program around it: it reads the configuration file, runs `gh`, `kubectl` and
the platform's opener, reads the terminal's keys and draws with ratatui.
