# rt_async_amp

Messages and remote calls between the two sides of an asymmetric
multiprocessing board: one processor runs a general operating system, the
other a small real-time program. Both reach one window of shared memory, and
each can ring the other's doorbell. The library holds what the two sides agree
on and what the real-time side decides; Verus proves it against the contracts
written beside the code.

## The library

| Modules | What they hold |
|---|---|
| `bytes`, `varint`, `text`, `wire` | integers as bytes, varints, decimal text, values as bytes |
| `message`, `ring`, `stream`, `channel`, `shm` | messages, their queues, long payloads in several messages, the window |
| `layout`, `region`, `notifier` | where the parts of the window lie, where the window is, who rings the doorbell |
| `descriptor`, `rpc`, `server`, `client`, `service`, `exchange` | method tables, remote calls, and what a call gives from one end to the other |
| `apps` | the services and measurements of the real-time side, the robot, the consoles |
| `chip` | the devices: serial ports, timers, interrupt controllers, mailboxes, pins, clocks, the device tree |

The library touches no device. A driver is a state that names the registers to
read, takes what was read, and gives the writes to make. Time, locks and
interrupts stand outside: a loop that waits is a state machine here, and the
waiting is done around it.

The model of a type is its view (`@`): a ring is the sequence of its waiting
messages, a channel that sequence with a magic number and a version, the window
a sequence of channels with a busy flag. A public function says in its
`ensures` how views change and what is returned. What holds across several
calls is stated by the functions whose names begin with `law_`.

## What is not proved here

`wire` calls `postcard`, `chip/dtb` calls `fdt-parser`, and `descriptor` calls
`core::str::from_utf8`. Each call stands in a small function of its own, with a
comment that says what is relied on.

## The rest

`tests/` runs the library on concrete values. `app/` is the program around it:
registers and memory by address, the waiting loops, the command line.
