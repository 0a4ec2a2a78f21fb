# babak_code

A terminal AI coding assistant, with its logic verified by Verus.

`src/` is the verified library:

- `prompt`, `prompt_controller`, `text_area`: the multi-line prompt buffer
  (byte-offset cursor, command mode, history) and how keys, pastes and the
  cursor reach it and are drawn;
- `dialog`, `response_area`, `blocks`, `status`, `notification`, `styled`,
  `markdown`, `cmark`: the panels, as styled lines and rectangles (`cmark`
  holds the markdown parser's events as plain values);
- `app_state`: what each terminal event, model message and GPU reading does,
  and what the event loop must do next;
- `controller`, `models`, `request`, `commands`, `profile`,
  `system_prompt`: the conversation store, its data, the requests built from
  it, slash commands and the user profile;
- `sse`, `lines`, `json`, `groq`, `ollama`, `openrouter`: decoding the
  streamed answers of the three backends;
- `tools`, `tool_defs`, `web`: the tools offered to the models, what a call
  means, and the checks and answers of the HTTP tool.

`app/` is the front end: terminal, clipboard, files, processes and HTTP.
`tests/` runs the library on concrete cases.
