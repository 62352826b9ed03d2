# fas_framework

Frame-aware scheduling for Android devices: watch how fast frames are drawn
and push the CPU clusters and the GPU up or down so that games keep their
frame rate and daily use saves power.

- `src/` is the verified library (Verus). It holds the scheduler's decisions
  (`frame`), the controllers' stepping rules (`cpu_common`, `mtk_gpu`,
  `controller::mtk_gpu_miui`), the parsers for what the device reports
  (`misc`, `misc::android_utils`, `watcher`, `watcher_fbt_info`) over a model
  of the `str` operations they use (`text`), and the choice of watcher and
  controllers (`fas_core`).
- `app/` is the daemon around it: commands, files, threads, channels, sleeping,
  and the controller implementations that read and write sysfs and procfs.
- `tests/` runs the library on concrete inputs.

Integer overflow: where values a device reports in normal use reach an
overflow (a refresh rate of 0, a step below the lowest CPU frequency), the
library computes what the release build computes and its contracts say so;
all other overflows are excluded by `requires`, and the daemon checks them
and stops as a debug build would. The crate documentation in `src/lib.rs`
lists the cases.
