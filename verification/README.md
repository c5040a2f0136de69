# comp76fx_core

The logic of the Comp76Fx limiting amplifiers, proved with Verus, and the
floating point and I/O around it.

`src/` is the verified library:

| Module | |
| --- | --- |
| `dsp` | the ratio switch bank (which buttons count), the sample delay that lines channels and the dry signal up, the noise generator's state |
| `dsp::delay` | a delay line generic over its sample type, with the law that it delays by exactly its length |
| `meters` | the meter's hand-off between the audio thread and the editor: packing, the restart rule, the atomics |
| `params` | the quality and meter switches, and how the ratio and power switches are written out and read back |
| `plugin` | what a buffer has to change before it runs, and each channel's noise seed |
| `presets` | which names are the same, which file a name is saved to, which saved preset it replaces, the listing order, which environment variable the preset folder is found under |
| `editor` | the lettering's inks and spacing, how the ratio switches latch, and when a knob's drag and its host gesture start and end |
| `text` | the string operations of std the rest is built on, with what std documents of them |

`app/` holds what runs on floating point or does I/O, and no more than
that: the sidechain detector, the gain element and the amplifier stages;
the meter's levels in decibels; reading and writing the preset files and
finding their folder; the host's parameters; and, of the editor, the
drawing primitives and the knob widget, which hands its events to the
library. The channel strip, the plugin body and the other editor widgets
are not part of it.

`tests/` runs the library on concrete values.
