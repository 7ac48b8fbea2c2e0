# perf-event

A verified library for operating Linux performance counters.

`src/` holds the library, written and proved in Verus. It knows how a counter is
opened, enabled, disabled, reset and read, how the words that the kernel delivers
are taken apart, and how the buffer of a group read grows. It makes no system
calls: an operation is handed a function that makes the call, or the outcome of a
read.

| module    | what it holds                                                       |
|-----------|---------------------------------------------------------------------|
| `flags`   | `ReadFormat`, the flags that say which words a read delivers        |
| `read`    | taking apart the words of a read, for one counter and for a group   |
| `reading` | the buffer of a read, and what each outcome of a read leads to      |
| `counter` | `Counter` and the values read from it                               |
| `group`   | `Group`                                                             |
| `counts`  | `Counts`, the counts of a group by the ids of its members           |
| `builder` | `Builder`, the arguments for opening a counter                      |
| `sys`     | system calls and their errors                                       |
| `error`   | `Error`                                                             |
| `text`    | numbers and fields, for diagnostic output                           |
| `time`    | nanoseconds as durations                                            |
| `laws`    | what holds of all of this taken together                            |

`app/` makes the system calls, and gives the types the traits of `std` that the
library cannot. `tests/` runs the library against a kernel that is played by the
tests.
