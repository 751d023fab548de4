# RadioFuzz

RadioFuzz relays radio transmissions between two software-defined radios and can change, delay,
replay or drop them on the way.

The library (`src/`) is the relay without the radios, verified with Verus:

| Module | Responsibility |
|---|---|
| `arith` | single- and double-precision values as bit patterns: order, extremes; arithmetic is handed in |
| `signal` | levels, decibels, test tones and bursts |
| `detector`, `detector_laws` | cutting transmissions out of a stream (idle, receiving, hangtime) |
| `fuzzer`, `fuzzer_laws` | strategies, chains of them, and the queue of delayed transmissions |
| `strategy_text` | strategies as they are written on the command line and shown |
| `text` | decimal numbers, fields and lines |
| `decimals` | levels written with six decimals |
| `recording`, `recording_laws` | `.iq32` sample files and `.meta` text |
| `replay` | which files are recordings, and in which order they are replayed |
| `stats` | counters and levels, the printed report, when it is printed |
| `autotest`, `session` | signal quality of test bursts, and the run of an automated test |
| `config`, `device` | what follows from the arguments: modes, checks, channel settings |
| `plan` | which threads a run has and what connects them |
| `pipeline`, `transmit` | what the receiving and the sending threads do |
| `span` | lengths of time, and the clock |

Floating point is kept out of the library. It compares values by their bit patterns and leaves
sums, products, roots and the like to an implementation of `arith::Arithmetic`; contracts say which
operations are applied to what, and in which order.

The program (`app/`) opens the devices, runs the threads that `plan` lists, and reads and writes
files. `tests/` exercises the library with the arithmetic of the machine.
