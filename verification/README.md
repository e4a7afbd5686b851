# c6_open_mac

An open transmit path for the Wi-Fi MAC of the ESP32-C6, with every step proved against its contract
by Verus.

On this MAC a frame does not leave because a slot was programmed. While the modem sleeps, register
writes are dropped, and the TX-block bits of `PM_TXBLOCK_RETENTION` hold back whatever is armed. A
frame therefore takes the whole way through the scheduler's own structures:

| Stage | Functions |
|-------|-----------|
| Buffer | `eb_pool::{init, cr_pool_alloc, recycle}` |
| Submit | `pipeline::cr_ppTxPkt`, `frame::{cr_ppTxProtoProc, cr_ppProcTxSecFrame}` |
| Map and wake | `pipeline::cr_ppMapTxQueue`, `pm_wake` |
| Enqueue, pop | `pending::{append, cr_ppGetTxframe}` |
| Schedule, arm | `pipeline::{cr_ppProcessTxQ, cr_lmacTxFrame}`, `slot`, `hal_mac_tx` |
| Complete | `pipeline::{complete_poll, cr_complete}` |

## How it is laid out

`src/` is the library. Its functions compute on `mmio::Mem`, an image of the address space: the caller
fills in what the hardware and the vendor firmware hold, runs a function, and performs the recorded
stores in order. A function that needs outside work in the middle (a callback of the operating
system, a leaf of the vendor firmware, a store that has to reach the hardware before the next load)
stops, says what is due, and is resumed with the reply. Contracts give the address space afterwards
exactly, stores and their order included.

The `*_laws` modules state what follows for a whole frame. Among them: a buffer comes back once, a
pending list is first in, first out, a wake stores nothing before clocks and PHY are on and clears
every block bit afterwards, a slot is not armed by being programmed, and a beacon of the loop goes
from the pool to the armed slot, with no ack awaited, and leaves its block fit for the next one.

`app/` is the program around the library: bring-up, volatile loads and stores, the calls into the
vendor firmware, and printing. With `CR_INTERPOSED` set it only interposes the register layer
(`interpose`) under the vendor scheduler. The other build-time variables are those of `config`:
`CR_BURST`, `CR_AB`, `CR_PM_EXP`, `CR_TX_MODE`, `CR_BLOB_WAKE`.

`tests/` runs the library on images of a chip.

Addresses outside the register file belong to one version of the vendor firmware and have to be
derived again for another.
