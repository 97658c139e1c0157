# rlease

A small DHCPv4 client for Linux, in Rust with Verus.

`src/` is the library: everything that the client decides or computes, with contracts that Verus
proves. `app/` is the program around it: sockets, files, signals, the clock and the commands that
configure an interface. `tests/` runs the library.

| Module | What it holds |
|--------|---------------|
| `text`, `number`, `addr` | taking text apart, numbers, IPv4 addresses and masks |
| `message` | the boundary to `dhcproto`: messages, their header and options |
| `lengths` | option lengths that a decoder may be given |
| `request`, `reply` | the messages that the client sends, and what it reads in an answer |
| `lease` | leases, and the file that keeps one across restarts |
| `dora` | getting a lease: discover, offer, request, acknowledgement, probe |
| `reboot` | taking up a saved lease again |
| `renew` | renewal, rebinding, discovery anew, release |
| `arp` | the probe for other holders of an address |
| `apply`, `teardown` | putting a lease into effect, and taking it out again |
| `args`, `session`, `link` | the command line, the course of a run, the interface and the clock |

The state machines (`dora`, `reboot`, `renew`, `apply`, `teardown`, `session`) take an event and
give back what to do; the program does it and hands in the next event. Proof functions whose names
start with `law_` state what holds of them as a whole: that no more discovers are sent than there
are tries, that a bound lease was acknowledged and no other holder found, that a client which must
stop gives its lease back whatever it was doing, and that a lease file reads back as written.

What is trusted rather than proved stands in `message` (calls into `dhcproto`) and in `text`
(`String::push`).
