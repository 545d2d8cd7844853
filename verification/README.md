# Clarity

Screen sharing between friends: rooms with a presenter and viewers, presence of
mutually added friends, and the sessions and the window of a native client.

`src/` is a library whose functions carry contracts, proved by Verus. `app/` is
the program around it: sockets, HTTP, the media engine, the terminal and the
window. `tests/` runs the library.

| module | what it holds |
| --- | --- |
| `room` | who is admitted to a room, who may act, what every peer is told |
| `presence` | friends who see each other, standing requests, proofs of identity |
| `crypto`, `turn`, `clock` | digests, credentials and points in time |
| `client::signaling`, `client::presence` | connections that survive outages |
| `client::presenter`, `client::viewer` | the two sessions of a room |
| `client::{invite, rooms, urls, audio_apps, cli, terminal}` | links, requests, audio, flags, reports |
| `desktop` | what the window shows and what its controls ask for |
| `text`, `textset`, `seqs`, `sorting`, `protocol` | what the rest is made of |

A state machine is a `struct` with a view. Its `model` says what each call does
to the view, the code is proved to do that, and its `laws` say what follows of
every call.

Calls into other crates stand behind small functions whose contracts are
trusted; each says which function it calls and what it claims of it.
