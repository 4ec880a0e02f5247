# rf_signal

Compares two captures of the RF signal of a VHS recorder and measures carriers, noise floors and
signal-to-noise ratios of luma and chroma. Captures are FLAC files or raw samples of 8 or 16 bits,
by the NTSC, PAL, M-PAL or N-PAL standard.

The library under `src/` is verified with Verus:

- `args` reads the command line, `gui` prepares it for the window.
- `binary64` rounds integers and quotients to 53 significant bits.
- `capture` turns raw bytes and FLAC words into samples, `welch` cuts them into segments.
- `preset` holds the frequencies and bands of each standard.
- `spectrum` finds peaks and noise floors in an averaged spectrum, `spurs` finds stray tones.
- `summary` gathers the figures of a capture; `report`, `json` and `profile` write them out.
- `text` prints numbers.

The library has no floating point. Levels are whole numbers of a unit of 2^-110 dB, fine enough to
hold every double-precision level that comes out of a logarithm; `binary64` rounds their sums,
differences and quotients as double-precision arithmetic does. Frequencies are whole ticks, of which 2097152 make a hertz, so that
the frequency of every bin is exact. Figures are printed as the standard library prints the
double-precision number, rounded half to even.

The program under `app/` reads files, computes the transforms and shows the window. Started under
the name `compare_gui` it opens the window, under any other name it is the command-line tool.
