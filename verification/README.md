# enginesound_gui

The control panel of an engine sound generator: a waterfall of the latest spectra, a recording
button, buttons to load and save engine configurations, and a column of sliders that edit the
engine while it runs.

`src/` is the panel itself, verified with Verus.

| module       | what it holds                                                            |
|--------------|--------------------------------------------------------------------------|
| `number`     | arithmetic over the number type of the panel                             |
| `engine`     | the engine, and the mix of its three volumes                             |
| `cylinders`  | changing all cylinders at once                                           |
| `controls`   | the controls: order, ranges, labels                                      |
| `panel`      | one pass over the controls: what each shows, what moving it does         |
| `buttons`    | recording, and stopping everything at once                               |
| `files`      | loading and saving configurations                                        |
| `clock`      | file names that carry the local time                                     |
| `color`      | the colours of the waterfall                                             |
| `inbox`      | the receiving end of a channel, with a record of what came out           |
| `waterfall`  | the waterfall and the state of the panel                                 |
| `app`        | the window                                                               |
| `run`        | a whole pass, from the first control to the last                         |
| `exact`      | what the formulas come to where nothing is lost to rounding              |
| `shading`    | how the colours run from level to level                                  |
| `rounded`    | what holds without error where every result is rounded correctly         |
| `rounding`   | how far the mix may be off where results may be off                      |
| `repeatable` | what holds of the waterfall where operators give one result              |

Numbers are a type parameter. The program fills in its floating-point type, and a contract says
which operators were applied to which values, in which order. Laws that need more than that name
what they need: a `Scale` says where numbers stand on the line of real numbers, on which arithmetic
may be `exact`, be `Rounded` correctly, or be off by a `Rounding` at most, and `repeatable` operators
give one result for given operands.

`app/` is the window around it: drawing with egui, dialogs, files, and what it asks of the sound
synthesis.
