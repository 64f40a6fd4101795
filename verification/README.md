# anvil_udev

The DRM backend of a Wayland compositor, driven by udev.

The library in `src/` decides; it never touches a device. Each of its steps takes what the
machine has replied and returns what is to be done next, and Verus proves that it is the right
thing.

| module | what it decides |
| --- | --- |
| `connectors` | which CRTC drives which connector |
| `render` | what a frame shows, and what follows when it fails |
| `task`, `handler` | how devices come, change and go |
| `run` | the course of the backend, from its first socket to its last clean-up |
| `paths`, `pointer`, `session` | the primary GPU, the pointer image, opened files |
| `device_laws`, `run_laws` | what holds of whole conversations, not of single steps |

`app/driver.rs` performs what the library decides, through traits. `app/hardware.rs` implements
these with smithay and glium; it needs libudev, libinput, libgbm and EGL on the machine.
