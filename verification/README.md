# collection_framework

Collects GPU kernel traces from running processes. A library, cuprof, is copied
into the target, told what to collect, and injected; it reports over a socket and
leaves a trace, which is fetched when the window is over.

`src/` decides, and what it decides is proved. Whatever touches files, sockets,
processes or the clock is asked for as an action and answered with an event:

- `unix_handler`, `messages`, `events`: the socket of a target and what it says
- `init`, `staging`, `releases`: getting a target ready, and choosing its runtime
- `trigger`, `injection`, `cuprof`: starting a window
- `shutdown`: fetching the trace
- `calls`, `cupti_plugin_wrapper`: the collector and what it knows
- `process`, `text`, `numbers`, `failures`, `constants`: what these are made of

The proof functions whose names begin with `law_` state what holds of the whole.

`app/` carries the actions out, with tokio.
