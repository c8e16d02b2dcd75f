# tcp_streamer

A network audio streamer: it captures an input device and sends the audio as
16-bit stereo PCM over TCP (raw, WAV, or chunked WAV to HTTP clients) or over
a native UDP transport with optional ChaCha20-Poly1305 encryption, and it can
play such a UDP stream back on an output device.

- `src/` is the verified library (Verus): wire formats and their parsers,
  the UDP session protocol (handshake, sealing, replay window, de-jitter),
  device-configuration negotiation, latency profiles and every buffering and
  pacing decision of the send and receive loops, written as state machines
  with contracts and proved laws.
- `app/` is the program around it: audio devices (cpal), ring buffers,
  sockets, mDNS, threads, and the floating-point signal processing
  (resampling, quantization, smoothing), which feeds the library's state
  machines and carries out what they decide.
- `tests/` exercises the library on concrete values.
