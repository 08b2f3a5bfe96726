# kurokku

Firmware logic for an ESP32-C3 LED clock that shows a clock, messages,
raw pixels or segments and animations on a MAX7219 32x8 matrix or a
TM1637 4-digit 7-segment module, as instructed by a polled server.

- `src/` is the verified library (Verus): fonts and payload encodings,
  the framebuffer, the widgets as state machines, the animations, the
  stored configuration with its defaults, syslog framing, and the engine's
  decisions (which widget, deduplication of server replies, failure
  counting, display-thread precedence).
- `app/` is the firmware around it: `main`, the SPI/GPIO drivers, WiFi,
  NTP, NVS, HTTP polling, OTA, the logger and the thread loops that run
  the library's state machines.
- `tests/` exercises the library.
