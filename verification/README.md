# mono_uart_recovery

A UART recovery tool for the Mono Gateway DK: a small loader stage that receives a
flash stage over the serial line, the flash stage that reads, writes, erases and
checksums the QSPI NOR flash, and the host program that drives them.

The library in `src/` holds the decisions of all three, verified with Verus:

- `protocol`, `slip`, `crc`: the frame layout, SLIP framing and CRC32.
- `text`, `error`, `args`, `ranges`, `baud`: the host's command line, sizes, byte
  ranges and NOR partitions, restore planning, baud rates and error messages.
- `session`: the host's side of the conversation, one request and one received
  frame at a time, and the checks on every answer.
- `restore`: the order of a restore's erase, write and verify requests, and the
  CRC32 that each range is expected to have.
- `stage`, `stage1`, `qspi`: what the loader and the flash stage decide for each
  received frame, the replies they send, the steps of their long operations, and
  the register values and FIFO words they use.
- `dialogue`: how the two ends fit together.

`app/` runs the loops that perform those decisions: it holds the host's serial
port, files, timeouts and terminal output, and the stages' register access and
polling, and it hands each received frame or finished step back to the library.
