# matrix-sdk-rtc-livekit

Joining LiveKit rooms for MatrixRTC calls, with the decisions verified by Verus.

A call in a Matrix room runs over a LiveKit room. The library decides where that room is and which
token it is joined with, when it is joined and left, how its media is encrypted, who gets the media
keys of the own device and which received keys are installed, and what the Element Call widget may
do. It performs no input or output: clients, rooms, key providers and event streams are type
parameters, and each function takes what has happened and says what to do next.

- `src/`: the verified library.
  - `details`, `service_url`: the service URL and the token.
  - `connection`: joining and leaving as call memberships come and go.
  - `room_options`, `per_participant`, `matrix_keys`: encryption.
  - `element_call`: capabilities and messages of the widget.
  - `encoding`, `json`, `identifiers`, `text`: base64, JSON, user ids and plain text.
- `tests/`: tests against the library with the real outside crates.
- `app/`: the Matrix SDK and the LiveKit SDK around the library.
