# arcrelay_transfer

The transfer core of ArcRelay's LAN file transfer, written in Rust and verified
with Verus, and the asynchronous service around it.

## Layout

- `src/` is the verified library. It holds the rules of a transfer as state and
  decisions over plain values; it opens no socket and no file and reads no clock.
  - `domain`: peers, receive policies, transfers, the transfer state machine and
    the accounting of progress.
  - `application`: the service's state and the use cases on it (send, answer,
    pause, resume, cancel, settings, peers, history), and the course of an
    incoming and of an outgoing transfer as state machines that take events and
    ask for actions.
  - `infrastructure`: offers, grants, file streams, digests, previews, paths,
    destinations, stream routing and the messages of the wire.
  - `subscription`: how a consumer of events keeps in step with the service.
  - `error`, `text`, `order`, `table`: what the rest is built on.
- `app/` is the service: the shared network runtime, QUIC streams, files, JSON
  stores and background tasks. It hands what it reads to the library and performs
  the actions that come back.
- `tests/` runs the library on concrete values, up to whole transfers between two
  services in memory.

## What is proved

Each function of `src/` states its result for every input, over a mathematical
model of its type (the `*Model` types), and Verus proves it. Where chance, the
machine or an answer from outside decides, it states what is asked for and what
comes of each outcome. Public proof functions state what holds across functions,
among them:

- a status that is final stays so, and progress never exceeds the size of a file;
- an offer that is built is one that is accepted;
- a file grant is good once, for one file of one transfer, until it expires;
- a file is stored only when its size and SHA-256 digest are those that the
  sender gave;
- a received file stays below the receive directory, under a name that was free;
- a received transfer is completed only when every file of it was received, and
  is over in the list when its course has ended well;
- a search of the network lists the devices that announce themselves, and no
  other unless a transfer with it is going on;
- nothing is received unasked from a peer that is not paired;
- a consumer of events that applies what it is told sees what the service shows.

What Verus takes on trust are the outside functions that the library calls:
Base64, SHA-256, Unicode composition and lower case, image reading and JPEG
encoding, random numbers, UUIDs and the name of the machine. Each stands behind a
small function whose doc comment says what is claimed of it.
