# tart-gnss-acquire

GNSS signal acquisition for the TART radio telescope — GPS L1 C/A, GPS L1C,
Galileo E1-C, BeiDou B1C, SBAS and QZSS — with antenna correlation, an
antenna quality test, an RFI report and a raw-data simulator.

## Layout

- `src/` — the verified library (Verus).  Every function carries a
  contract that Verus proves:
  - `acquisition`, `sbas`, `qzss` — GPS-style C/A Gold codes from the G1/G2
    shift registers and the PRN delay tables; PRN and antenna selection.
  - `legendre`, `l1c_codes`, `beidou_codes`, `chips` — Legendre sequences,
    Weil codes, BOC(1,1) modulation for GPS L1C and BeiDou B1C pilots.
  - `galileo` — decoding hex-encoded E1-C memory codes into chips.
  - `observation`, `simulator` — the packed one-bit sample format, the
    observation data layout, integer sums, and the xorshift64 generator.
  - `correlate` — the circular code-phase window of the second-peak search.
  - `acr` — the ACR C/N0 lookup table.
  - `antenna_test` — reference-satellite selection and antenna ranking.
  - `cli`, `decimal` — command-line flags, mode rules and number parsing.
- `app/` — the `tart-gnss-acquire` program: HDF5 and JSON I/O, the
  floating-point FFT search, statistics and signal simulation, built on the
  library.
- `tests/` — tests of the library.

Build and verify with the Verus toolchain; `app/` is ordinary Rust that
depends on the library crate `tart_gnss_acquire`.
