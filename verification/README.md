# lidar

RPLIDAR A1 communication, verified with Verus.

- `src/` is the library: request packets (`packet`, `command`, `rplidar::command`),
  the response descriptor and payload state machines (`rplidar::rd_parser`,
  `rplidar::payload_parser`, `parser`), the decoding of legacy scan records and
  ultra capsules (`rplidar::response`, `rplidar::ultra`,
  `rplidar::ultra_capsule_parser`), and `rplidar::LidarDecoder`, which runs them
  over the bytes read from the device. Every function but the clock reading carries a contract; the
  stream laws (`lemma_scan_stream`, `lemma_extended_stream`) state what a whole
  response decodes to.
- `app/` is the program around it: the UART and PWM driver, the websocket
  server, and the conversion of the fixed-point results to floating point.
- `tests/` runs the library on concrete inputs.
