# embassy_mcxa

Register-level logic of two MCXA peripherals, verified with Verus:

- `flexio`: the FlexIO bank of shifters and timers, and an 8N1 UART transmitter on top of it;
- `usb`: the full-speed USB device controller.

The library in `src/` decides and a thin layer in `app/` acts. A function of the library
takes what the registers read, updates the driver's state, and appends the operations that
have to be performed to a queue. A procedure that waits for the hardware is a function from
a stage to the next one. The contracts say which operations are queued, in which order, and
what the state is afterwards.

- `src/flexio/keeper.rs` takes the parts of a split FlexIO peripheral back and switches it
  off with the last of them.
- `src/usb/hardware.rs` says what the operations do to the controller, and `src/usb/laws.rs`
  and `src/flexio/laws.rs` state what follows for the drivers as a whole.
- `app/` holds the descriptor table and the packet buffers, the wakers, the interrupt entry
  and the implementations of the `embassy-usb-driver` traits. Register access comes from the
  board through the two port traits.
