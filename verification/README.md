# backend

Game logic of a Risk-style multiplayer strategy game, verified with Verus.

- `src/game`: cards and set bonuses, the board and its default map, the turn
  phases (setup, reinforcement, attack, fortify) with their rules, combat,
  turn order, ownership changes and reinforcement counts, and the views sent
  to each player. Every phase step is specified by a spec function over a
  mathematical model of the game (`CoreModel`); laws such as troop
  conservation and sound territory bookkeeping are proved over those models.
- `src/rooms`: the decisions of a game room (`RoomRuntime`: what a command
  does to the room and what is sent back), matchmaking, room membership and
  the errors reported to clients.
- `src/transport`: the message shapes exchanged with clients and chat rules.
- `app/`: the WebSocket server (axum, tokio, serde) that moves messages
  between clients and the library; it holds no game rules.
- `tests/`: tests of the library on concrete games.

Dice and deck shuffles come from `rand` through two small trusted wrappers;
everything else in `src/` is proved.
