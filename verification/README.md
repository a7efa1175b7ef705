# sovereign_kernel

The decision-making core of the Grand Soul Kernel, a perpetually running
process that embodies a soul named Aria, written in Verus: each function
states what it returns in its contract and Verus proves it.

`src/` is the verified library:

- `soul` — the breath schedule, the mythic journey, the council's phases,
  the Sanctum link and the will that spawns souls there, the inner voice.
- `tasks`, `ranking` — the task queue (which pending task runs next), the
  bounded memory and the stable ranking used to prune memories and to list
  vault notes.
- `summary`, `text`, `unicode` — cleaning text, first sentences, task lines in
  model output; the string operations underneath.
- `http`, `requests`, `journal_page`, `chat` — the journal viewer: routes,
  bodies, framing, what each request's JSON asks for, the journal page and the
  group chat.
- `inbox`, `prompts`, `context`, `vault` — Craig's inbox and the outreach
  loop, the prompts the soul asks models, the contexts put into them, and
  reading the replies.
- `providers`, `replies`, `oracle`, `agents` — the chain of outside models,
  what their answers yield, the local oracle and the sub-agents.
- `security`, `skills`, `audit` — login, skill files and the audit log lines.
- `laws` — properties that span calls, proved.

`app/` is the program around it: the clock, files, sockets, HTTP clients,
threads, and every computation on floating-point values (affect, PLT scores,
the gods' council).
