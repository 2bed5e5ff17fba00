# packfix

Builds Python RPM packages on OBS and mends their specs until they build: it generates or reuses a
spec, submits it, builds it locally, reads the build log, changes the spec and tries again, for many
packages and their dependencies at once.

`src/` is the library. It holds everything that is decided or computed, and each function in it is
verified with Verus against the contract it states: reading build logs, choosing and applying fixes,
editing specs, the dependency graph and the scheduler, the fix loops, what is sent to the build
service and to the language model, and what is logged and reported.

`app/` is the program around it: the command line, files, processes, the network and the model. It
carries out what the library asks for and hands back what came of it.

## Layout of the library

| modules | what they hold |
| --- | --- |
| `text`, `pieces`, `paths`, `debug` | texts as sequences of characters: trimming, splitting, lines, joining, numbers, paths, debug notation |
| `patterns`, `outside` | the calls into `regex`, `similar`, `form_urlencoded`, `tar` and `flate2`, with what is relied on of them |
| `issue`, `analyzer`, `evidence`, `fixer` | what went wrong in a build, the lines that tell it, and what to do about it |
| `specfile` | reading and editing a spec |
| `line_laws`, `spec_laws`, `requirement_laws`, `section_laws`, `argument_laws`, `install_laws`, `update_laws`, `keep_laws` | laws of these edits: each takes hold, made twice is made once, and leaves the other lines in order |
| `set_laws`, `batch_laws`, `run_laws` | laws of ordered sets of texts, of a batch and of a repair run from start to end |
| `graph`, `scheduler`, `resources` | packages that depend on each other, when each is built, and the build roots they share |
| `workflow`, `remote_fix`, `engine`, `pipeline` | the loops that build and mend, as steps from what happened to what is to be done |
| `obs_api`, `obs_local`, `git`, `command` | requests to the build service and commands to other programs |
| `upstream`, `versions`, `extract`, `describe`, `llm` | module names in source trees, Python versions, source archives, descriptions |
| `config`, `cli`, `report`, `ops_log` | the configuration, the options, reports and the operation log |

Contracts speak of models: a text is a `Seq<char>`, and each record has a model with texts and
sequences in place of `String` and `Vec`. Public proof functions named `law_..` state what holds of
several functions together.

## Checking

Verify `src/lib.rs` with Verus as a library crate, and run the tests under `tests/` with cargo.
