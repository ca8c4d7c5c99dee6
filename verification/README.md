# blacksmith_core

The shared logic of the Blacksmith Lab services (Telegram bots, a user-mode
chat monitor, web services for podcasts and video dubbing), written in Verus.
Every function of `src/` carries a contract that Verus proves, except the small
wrappers around outside crates (chrono, serde_json, csv, pulldown-cmark, url,
base64, md-5, uuid, unicode-segmentation, emojis) and a few std calls: those are
marked `#[verifier::external_body]`, their contracts are assumed, and each one's
doc comment says what it claims of the outside code.

## Layout

- `src/` — the verified library, one module per concern:
  - `text` — character-level text operations and their laws (trimming,
    splitting, lines, joining, replacing, decimal numbers, code-point order);
  - `request_app` — the menus of the request mini-app (screens, flags, replies)
    and the stored search results with their navigation;
  - `agent_monitor` — the spam monitor of public chats: who wrote a message,
    the counters of a chat, when a report is due, the administrators, and the
    step-by-step handling of a new message;
  - `groot` — moderation: penalty points, black list, restricted words, emoji
    counting, chat records;
  - `gpu`, `gpu_manager` — the GPU instance list and the pool of instances
    (claiming, releasing, start-up, cloud status);
  - `dubbing`, `accounting` — the dubbing pipeline's monitoring decisions and
    the running-job counters;
  - `podcast` — podcast assembly: channel files, voice parts, merging, retries;
  - `rag`, `chunking`, `markdown`, `llm_json` — retrieval helpers, text
    chunking, Telegram escaping, reading model answers;
  - `stable_order` — the order of a stable sort by key;
  - `moscow_time` — Moscow day bounds and payment deadlines;
  - `subscription*`, `heleket` — subscription plans and texts, the payment
    gateway's requests and signatures;
  - `app_name`, `clock`, `models`, `viper_auth` — application names and
    resource paths, time, shared data types, the podcast app's login state.
- `tests/` — tests of the library on concrete values.
- `app/` — the code around the library that Verus does not see: file and
  environment access, JSON copies of the library's types, floating-point
  scoring and prices, and drivers that run the library's decisions against
  outside services.
