# CAN to USB bridge

Firmware for an STM32G4 that bridges three CAN buses to Linux over USB, with the `gs_usb` driver and
socketCAN. What the bridge decides is a library verified with Verus; the firmware around it moves
bytes and frames.

- `src/` is the library. `control` answers control requests, `bulk` takes frames out of USB transfers
  and puts responses into them, `can` tells what a channel does about a command, a frame or the end
  of a transmission, and `laws` states what holds of all of it together.
- `app/` is the firmware: the Embassy tasks, the queues between them, and the peripherals. It reads
  from the registers which mailbox is free and what became of the frame in a mailbox; which frame
  that is, and which echo ID goes back to the host, the library decides.
- `tests/` runs the library on concrete messages.

The library trusts three calls, all in `src/frame.rs`: `StandardId::new` and `ExtendedId::new` of
`embedded-can`, and `Frame::new_data` of `embassy-stm32`.

`Cargo.toml` selects the `std` platform of the executor and of the mutexes, so that everything can be
checked on a development machine.
