# squabble

A fighter for CI gates that wins them and never bypasses them. A gate is green exactly when it
requires something and every check that it requires ran and passed; nothing in this library
reaches green in another way.

The library is written in Verus. Every function of it has a contract over mathematical values,
and the laws that hold across functions are public proof functions beside them.

| module | what it holds |
| --- | --- |
| `gate` | required checks, their runs, and the state that follows from them |
| `moves`, `outcome` | the moves that may be proposed, and what a fight ends in |
| `diagnosis` | one proposed move for each open requirement |
| `workflow_file`, `retired_policy`, `workflows` | what a workflow file gives away, and the move that follows from it |
| `context`, `gate_triage` | what a repository says about itself in its descriptiles and directives |
| `plan` | the plan of a fight, with every red accounted for |
| `apply` | dropping the path filter of a workflow, and applying moves step by step |
| `polarity`, `greens` | whether a check that is green really ran |
| `admission` | whether CI work may start |
| `rollup`, `required`, `actions_policy`, `fetch_error`, `fetch` | from what GitHub says to a gate |
| `json`, `summon`, `summon_run` | calling in experts for escalations, step by step and over whole runs |
| `args`, `show`, `fight`, `port` | the front end: arguments, what is shown, the course of a fight, the server's port |
| `text` | primitives on text that the readers are built from |

What alternates with the outside world (fetching, applying, summoning) is a function from a
point and an answer to the next question. `app/` holds the loops around them, the command line,
the loopback server and the JSON shapes of the types.
