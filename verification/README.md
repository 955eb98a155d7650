# mars

MARS routes audio between applications, virtual devices and the devices of a
machine. A profile says which devices there are and how they are connected; the
daemon applies it as a transaction, renders it, and reports on it.

- `src/` is the library: profiles and their routing graphs, the engine that renders
  them, the render loop, external devices and their recovery, taps, recordings,
  plugin hosts, the transaction with its rollback, the driver's state, the log, the
  diagnosis, and what the command asks, decides and prints. Every item is verified
  with Verus.
- `app/` is the program around it: arguments, sockets, files, threads, the audio
  system of macOS, and the arithmetic on samples.
- `tests/` runs the library.

Samples and other floating-point numbers are held in the library by their bit
patterns. What is computed with them is left to the program, through the trait
`SampleMath`; the library decides what is computed from what, and in which order.

Audio passes between the router and its virtual devices through rings. A ring is a part
of the library. The program keeps rings by name in its own memory, so only its own threads
share them: memory shared with the process of the driver is not part of this project.

Work that goes on outside the library, such as applying a profile or starting the
daemon, is a state machine in the library: the program carries out a step and hands
back what came of it. Taps are made and destroyed through the trait
`TapBackend`, whose history of calls says exactly which calls were made, and in which
order.
