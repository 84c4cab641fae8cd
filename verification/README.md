# Voxply

A chat hub with channels, voice, bots, badges and certifications, and a farm that hosts many
hubs.

The rules of both servers are a library that is verified with Verus. Each rule is a function
from what is stored and what was asked to what is stored next, what is answered, and whom to
tell. Its contract says when the request is refused, with which status and words, and what
comes of it otherwise.

- `src/hub/`: the rules of a hub. `auth` lets users in, `channels`, `messages`, `moderation`,
  `tags` and `webhooks` are the chat, `voice` and `ws` are what is live, `bots`, `events` and
  `token_expiry` are for bots, `certs`, `cert_worker`, `badges` and `federation` are between
  hubs, `games` is for play, and `permissions`, `migrations`, `config` and `health` carry the
  rest.
- `src/farm/`: the rules of a farm. `hubs` lists, creates, suspends and deletes hubs, `admin`
  holds settings, quotas, users and sessions.
- `src/`: what both stand on. `calendar` and `clock` tell the time, `codec` is for hex, digests
  and JSON lists, `entropy` draws identifiers and tokens, `number` and `text` are for texts,
  `table` is a map in order of insertion, `rows` is for lists of rows.
- `app/`: the servers themselves: HTTP, sockets, the database, signatures.
- `tests/`: what the library does on concrete values.

Public proof functions state what holds of several functions together, such as that a token
that was just created opens the door, or that two pages of a listing join without a gap.
