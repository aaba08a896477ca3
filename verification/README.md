# lil-big-helper

A terminal helper for git: it shows the commits of a repository as a list beside the branches, tags
and stashes, shows what a commit changed and what is changed in the working tree, and makes, switches,
pushes and merges branches with the bases that they were made from.

The library in `src/` holds what the program decides and computes, with contracts that Verus proves:

- `git` reads what git prints (the log, the references, the stashes, the state of the working tree),
  puts the history together, and says what git is asked and what its answers mean.
- `widget` holds the list of commits with its cursor and its search, the tree of references, and the
  texts that are drawn for them; `layout`, `span` and `color` say where and how.
- `view` holds the views and how they answer events; `app` holds the keys, the line of status, the
  questions, the jobs that run several commands one after the other, and the program as a whole.
- `protection` writes the hook that protects branches, `repo_state` keeps the bases of branches,
  `workflow` and `external` say how other programs are run.
- `text`, `order`, `names`, `sets`, `numerals`, `decode` and `paths` are what these build on.

`app/` is the terminal around the library: it runs git and other programs, reads and writes files,
fills the clipboard, draws, and runs the loop of events. `tests/` runs the library.
