# bigtiny

The logic of an agent daemon that serves chats over REST and server-sent events, as a
verified library: what is sent to the providers of language models and how their streamed
answers are read, which tools are offered and how they are called, what the routes store,
show and answer, how recipes and schedules run, and how the models of the in-process engine
are sized, prompted and listened to.

Contracts are stated over mathematical models: a string is the sequence of its characters, a
JSON value is a `JsonV`, a registry is a map, a stream parser is a state with the fragments
that wait to be read. Public proof functions state what holds of several functions together.

- `src/` is the library.
  - `text`, `json`, `dict`, `registry` are the ground it stands on.
  - `provider` holds the requests to providers, the parsers of their answers, sampling
    parameters, and the router that chooses among providers.
  - `local` sizes, prompts and listens to the models that run in this process.
  - `mcp` and `models` are about tool servers and their tools.
  - `routes` and `server` decide what requests store and what is answered to whom.
  - `recipes` runs recipes, whose templates `templates` looks over before they are rendered.
  - `scheduler`, `network`, `pyrepr` stand for themselves.
- `tests/` runs the library.
- `app/` is the daemon around it: sockets, storage, processes, the clock and the native
  engine.
