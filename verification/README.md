# shaysbot

The decision logic of a Minecraft pearl bot, written in Verus: every function in `src/`
carries a contract that Verus proves.

- `src/` — the verified library: chat line formats, command parsing and cooldowns, the
  commands (pearl, whitelist, join, leave, interact, playtime, seen, ping and the first
  command set), stasis chamber selection, the HTTP API's authentication and routing, No Chat
  Reports encryption recognition, the Discord bridge, the webhook logger, and the modules
  (anti-AFK, auto-eat, auto-kill, auto-leave and re-queueing, auto-look, auto-pearl,
  auto-totem, auto-whitelist). Laws that span functions stand as public proof functions
  (`lemma_*`).
- `tests/` — tests on concrete values, some cross-checked against `regex` and `std`.
- `app/` — the program around the library: configuration file, update check, the HTTP API
  server and the Discord bridge. The outside crates reach the library only through small
  trusted wrappers whose contracts are stated in `src/`.
