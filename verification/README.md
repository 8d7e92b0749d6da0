# pcode

A terminal coding assistant's core, written in Verus: the parts that decide
and compute are proved against their contracts, and a thin program around
them does the input and output.

## Layout

- `src/` — the verified library. Among its modules:
  - `patch`, `apply`, `fastpatch`: SEARCH/REPLACE patches — parsing, exact
    application with its error messages, the patch run over a pasted
    document and its `patchinfo.log`.
  - `access`, `tools`, `tool_list`, `tool_output`, `tool_reply`: the checks
    on paths the tools may touch, the tools offered to the model and their
    JSON descriptions, the routing of a model's tool call and the replies.
  - `agent`, `agent_cycle`, `llm_api`, `json`: skill groups and the session's
    system prompt, the agent's turn-taking decisions, the model API's
    messages, a plain JSON value.
  - `buffer`, `editor`, `workspace`, `keymap`, `navigate`, `selection`,
    `commands`, `merge_view`, `merge_rows`, `git_view`, `git_panes`,
    `history`, `bracket`, `search`, `outline`, `popup`: the editor-like
    interface — buffers with a cursor, line editing with history, key
    handling, the merge and git views, bracket matching.
  - `status`: the status bar's segments and the git summary.
  - `config`, `cli`, `debug`, `unicode`, `text`, `fmt`, `misc`:
    configuration, argument handling, the debug log, text utilities.
  Public proof functions whose names begin with `law_` state properties that
  hold across calls (what one operation undoes or keeps).
- `tests/` — tests on concrete values.
- `app/` — the program: arguments, files, the clipboard, the terminal.
