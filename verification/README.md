# kmsvnc

The core of a VNC server that captures the screen from the KMS/DRM framebuffer and forwards input
through virtual uinput devices. It works the same whether X11, Wayland or nothing at all is running.

The library in `src/` decides; it touches no device. Each of its functions carries a contract that
[Verus](https://github.com/verus-lang/verus) proves.

| Module | What it decides |
| --- | --- |
| `frame_diff` | which 64-pixel tiles are dirty, and the rectangles to redraw |
| `kms::pixel_format`, `kms::fourcc` | how framebuffers become packed BGRA |
| `kms::cpu_capture`, `kms::capture_steps` | how a framebuffer is found, mapped, read and cached |
| `kms::dmabuf` | which buffers are exported, and where planes lie in them |
| `kms::outputs`, `devices` | which device and output are captured |
| `capture_loop` | when to capture: on demand, or polling with backoff |
| `video`, `encode`, `pipeline`, `pipeline_steps`, `transport` | the experimental video stream |
| `input`, `permissions`, `config` | input events, early warnings, settings |
| `laws` | what holds of the parts together |

The program in `app/` asks the kernel, the video driver and the network what the library wants to
know, and does what the library says. The viewer protocol, the virtual keyboard and framebuffer
devices are supplied by crates of their own, through `app/extensions.rs`.

Only `kms::fourcc` trusts code that is not proved: it calls `drm_fourcc` to recognise format codes
and modifiers.
